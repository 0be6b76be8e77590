//! Field layouts and resolved field references.
use vstd::prelude::*;
use crate::hierarchy::{bases_acyclic, derives_from, derives_from_exec};
use crate::model::{FieldLayoutEntry, FieldRef, Module, base_of, layout_index, spec_field_ref};
use crate::source::{Diagnostic, Span, invalid_ir, invalid_ir_code};
use crate::text::{chars_of, decimal, push_char, push_decimal, push_str};
use crate::types::{Type, TypeV};

verus! {

/// Interned field spellings are non-empty and pairwise distinct.
pub open spec fn field_names_valid(m: Module) -> bool {
    &&& forall|i: int| 0 <= i < m.field_names@.len() ==> (#[trigger] m.field_names@[i])@.len() > 0
    &&& forall|i: int, j: int|
        0 <= i < j < m.field_names@.len() ==> (#[trigger] m.field_names@[i])@ != (
        #[trigger] m.field_names@[j])@
}

/// A derived layout entry repeats its base entry exactly.
pub open spec fn same_layout_field(d: FieldLayoutEntry, b: FieldLayoutEntry) -> bool {
    &&& d.id == b.id
    &&& d.slot == b.slot
    &&& d.ty@ == b.ty@
    &&& d.declaring_owner@ == b.declaring_owner@
    &&& d.weak == b.weak
}

/// Entry `i` of the layout stored under `key`: its slot is its position, its
/// id is interned and unique in the layout, and it is declared by the owner
/// or one of its bases.
pub open spec fn layout_entry_valid(m: Module, key: Seq<char>, fields: Seq<FieldLayoutEntry>, i: int) -> bool {
    &&& fields[i].slot.0 == i
    &&& fields[i].id.0 < m.field_names@.len()
    &&& forall|j: int| 0 <= j < i ==> fields[j].id != fields[i].id
    &&& fields[i].declaring_owner@.len() > 0
    &&& derives_from(m, key, fields[i].declaring_owner@)
}

/// A derived layout starts with its base layout.
pub open spec fn base_prefix_preserved(m: Module, key: Seq<char>, fields: Seq<FieldLayoutEntry>) -> bool {
    match base_of(m, key) {
        Some(b) => match layout_index(m, b) {
            Some(l) => {
                let base = m.field_layouts@[l].1.fields@;
                fields.len() >= base.len() && forall|i: int|
                    0 <= i < base.len() ==> same_layout_field(fields[i], #[trigger] base[i])
            },
            None => true,
        },
        None => true,
    }
}

pub open spec fn layout_valid(m: Module, k: int) -> bool {
    let (key, layout) = m.field_layouts@[k];
    let fields = layout.fields@;
    &&& key@.len() > 0
    &&& layout.owner@.len() > 0
    &&& layout.owner@ == key@
    &&& fields.len() <= 0x1_0000_0000
    &&& forall|i: int| 0 <= i < fields.len() ==> #[trigger] layout_entry_valid(m, key@, fields, i)
    &&& base_prefix_preserved(m, key@, fields)
}

/// Layout metadata is well formed.
pub open spec fn field_layouts_valid(m: Module) -> bool {
    &&& field_names_valid(m)
    &&& forall|k: int| 0 <= k < m.field_layouts@.len() ==> #[trigger] layout_valid(m, k)
}

/// The message for the first refused interned field spelling from `i` on: an
/// empty one, or one that repeats an earlier spelling.
pub open spec fn field_names_error(m: Module, i: int) -> Option<Seq<char>>
    decreases m.field_names@.len() - i,
{
    if i < 0 || i >= m.field_names@.len() {
        None
    } else if m.field_names@[i]@.len() == 0 {
        Some("field names cannot be empty"@)
    } else if exists|j: int| 0 <= j < i && (#[trigger] m.field_names@[j])@ == m.field_names@[i]@ {
        Some("field names must be unique"@)
    } else {
        field_names_error(m, i + 1)
    }
}

/// The message and span for entry `i` of layout `k`, if it is refused.
pub open spec fn layout_entry_error(m: Module, k: int, i: int) -> Option<(Seq<char>, Span)> {
    let (key, layout) = m.field_layouts@[k];
    let fields = layout.fields@;
    let field = fields[i];
    if i > 0xffff_ffff {
        Some(("field layout has too many fields"@, layout.span))
    } else if field.slot.0 != i {
        Some(("field layout slots must be dense and ordered"@, field.span))
    } else if field.id.0 >= m.field_names@.len() {
        Some(("field ID is absent from the name table"@, field.span))
    } else if exists|j: int| 0 <= j < i && (#[trigger] fields[j]).id == field.id {
        Some(("field layout contains a duplicate field ID"@, field.span))
    } else if field.declaring_owner@.len() == 0 || !derives_from(m, key@, field.declaring_owner@) {
        Some(("field declaring owner is not in the layout hierarchy"@, field.span))
    } else {
        None
    }
}

/// The first refused entry of layout `k` from entry `i` on.
pub open spec fn layout_entries_error(m: Module, k: int, i: int) -> Option<(Seq<char>, Span)>
    decreases m.field_layouts@[k].1.fields@.len() - i,
{
    if i < 0 || i >= m.field_layouts@[k].1.fields@.len() {
        None
    } else {
        match layout_entry_error(m, k, i) {
            Some(e) => Some(e),
            None => layout_entries_error(m, k, i + 1),
        }
    }
}

/// The message and span with which layout `k` is refused, if it is: its
/// owner, its entries in order, then its base prefix.
pub open spec fn layout_error(m: Module, k: int) -> Option<(Seq<char>, Span)> {
    let (key, layout) = m.field_layouts@[k];
    if key@.len() == 0 || layout.owner@.len() == 0 || layout.owner@ != key@ {
        Some(("field layout owner must be non-empty and match its module key"@, layout.span))
    } else {
        match layout_entries_error(m, k, 0) {
            Some(e) => Some(e),
            None => if !base_prefix_preserved(m, key@, layout.fields@) {
                Some(("derived field layout must preserve the base layout prefix"@, layout.span))
            } else {
                None
            },
        }
    }
}

/// The first refused layout from layout `k` on.
pub open spec fn layouts_error(m: Module, k: int) -> Option<(Seq<char>, Span)>
    decreases m.field_layouts@.len() - k,
{
    if k < 0 || k >= m.field_layouts@.len() {
        None
    } else {
        match layout_error(m, k) {
            Some(e) => Some(e),
            None => layouts_error(m, k + 1),
        }
    }
}

/// The message and span with which the layout metadata is refused, if it is;
/// problems with the name table are reported at `span`.
pub open spec fn field_layouts_error(m: Module, span: Span) -> Option<(Seq<char>, Span)> {
    match field_names_error(m, 0) {
        Some(message) => Some((message, span)),
        None => layouts_error(m, 0),
    }
}

pub fn same_layout_field_exec(d: &FieldLayoutEntry, b: &FieldLayoutEntry) -> (r: bool)
    ensures
        r == same_layout_field(*d, *b),
{
    d.id.0 == b.id.0 && d.slot.0 == b.slot.0 && crate::types::type_eq(&d.ty, &b.ty)
        && d.declaring_owner == b.declaring_owner && d.weak == b.weak
}

fn validate_field_names(m: &Module, span: Span) -> (r: Result<(), Diagnostic>)
    ensures
        r is Ok <==> field_names_valid(*m),
        r is Ok <==> field_names_error(*m, 0) is None,
        r matches Err(d) ==> d.code@ == invalid_ir_code() && d.span == span && field_names_error(*m, 0)
            == Some(d.message@),
{
    let n = m.field_names.len();
    let mut i: usize = 0;
    while i < n
        invariant
            0 <= i <= n,
            n == m.field_names@.len(),
            field_names_error(*m, 0) == field_names_error(*m, i as int),
            forall|a: int| 0 <= a < i ==> (#[trigger] m.field_names@[a])@.len() > 0,
            forall|a: int, b: int|
                0 <= a < b < n && b < i ==> (#[trigger] m.field_names@[a])@ != (
                #[trigger] m.field_names@[b])@,
        decreases n - i,
    {
        if m.field_names[i].as_str().is_empty() {
            return Err(invalid_ir("field names cannot be empty", span));
        }
        let mut j: usize = 0;
        while j < i
            invariant
                0 <= j <= i < n,
                n == m.field_names@.len(),
                forall|a: int| 0 <= a < j ==> (#[trigger] m.field_names@[a])@ != m.field_names@[i as int]@,
                field_names_error(*m, 0) == field_names_error(*m, i as int),
                m.field_names@[i as int]@.len() > 0,
            decreases i - j,
        {
            if m.field_names[j] == m.field_names[i] {
                assert(m.field_names@[j as int]@ == m.field_names@[i as int]@);
                return Err(invalid_ir("field names must be unique", span));
            }
            j += 1;
        }
        i += 1;
    }
    Ok(())
}

/// Checks every field layout of the module.
pub fn validate_field_layouts(m: &Module, span: Span) -> (r: Result<(), Diagnostic>)
    requires
        m.wf(),
        bases_acyclic(*m),
    ensures
        r is Ok <==> field_layouts_valid(*m),
        r is Ok <==> field_layouts_error(*m, span) is None,
        r matches Err(d) ==> d.code@ == invalid_ir_code() && field_layouts_error(*m, span) == Some(
            (d.message@, d.span),
        ),
{
    validate_field_names(m, span)?;
    let mut k: usize = 0;
    while k < m.field_layouts.len()
        invariant
            0 <= k <= m.field_layouts@.len(),
            m.wf(),
            bases_acyclic(*m),
            field_names_valid(*m),
            field_names_error(*m, 0) is None,
            layouts_error(*m, 0) == layouts_error(*m, k as int),
            forall|a: int| 0 <= a < k ==> #[trigger] layout_valid(*m, a),
        decreases m.field_layouts@.len() - k,
    {
        validate_layout(m, k)?;
        k += 1;
    }
    Ok(())
}

fn validate_layout(m: &Module, k: usize) -> (r: Result<(), Diagnostic>)
    requires
        m.wf(),
        bases_acyclic(*m),
        k < m.field_layouts@.len(),
    ensures
        r is Ok <==> layout_valid(*m, k as int),
        r is Ok <==> layout_error(*m, k as int) is None,
        r matches Err(d) ==> d.code@ == invalid_ir_code() && layout_error(*m, k as int) == Some(
            (d.message@, d.span),
        ),
{
    let key = &m.field_layouts[k].0;
    let layout = &m.field_layouts[k].1;
    if key.as_str().is_empty() || layout.owner.as_str().is_empty() || layout.owner != *key {
        return Err(
            invalid_ir("field layout owner must be non-empty and match its module key", layout.span),
        );
    }
    let fields = &layout.fields;
    let key_chars = chars_of(key.as_str());
    let mut i: usize = 0;
    while i < fields.len()
        invariant
            0 <= i <= fields@.len(),
            m.wf(),
            bases_acyclic(*m),
            k < m.field_layouts@.len(),
            *key == m.field_layouts@[k as int].0,
            *fields == m.field_layouts@[k as int].1.fields,
            key_chars@ == key@,
            i <= 0x1_0000_0000,
            forall|a: int| 0 <= a < i ==> #[trigger] layout_entry_valid(*m, key@, fields@, a),
            key@.len() > 0 && layout.owner@ == key@,
            *layout == m.field_layouts@[k as int].1,
            layout_entries_error(*m, k as int, 0) == layout_entries_error(*m, k as int, i as int),
        decreases fields@.len() - i,
    {
        if i > 0xffff_ffff {
            return Err(invalid_ir("field layout has too many fields", layout.span));
        }
        let field = &fields[i];
        if field.slot.0 as usize != i {
            assert(!layout_entry_valid(*m, key@, fields@, i as int));
            return Err(invalid_ir("field layout slots must be dense and ordered", field.span));
        }
        if field.id.0 as usize >= m.field_names.len() {
            assert(!layout_entry_valid(*m, key@, fields@, i as int));
            return Err(invalid_ir("field ID is absent from the name table", field.span));
        }
        let mut j: usize = 0;
        while j < i
            invariant
                0 <= j <= i < fields@.len(),
                m.wf(),
                k < m.field_layouts@.len(),
                *key == m.field_layouts@[k as int].0,
                *fields == m.field_layouts@[k as int].1.fields,
                forall|a: int| 0 <= a < j ==> (#[trigger] fields@[a]).id != fields@[i as int].id,
                key@.len() > 0 && layout.owner@ == key@,
                *layout == m.field_layouts@[k as int].1,
                layout_entries_error(*m, k as int, 0) == layout_entries_error(*m, k as int, i as int),
                i <= 0xffff_ffff,
                fields@[i as int].slot.0 == i,
                fields@[i as int].id.0 < m.field_names@.len(),
                *field == fields@[i as int],
            decreases i - j,
        {
            if fields[j].id.0 == fields[i].id.0 {
                assert(fields@[j as int].id == fields@[i as int].id);
                assert(!layout_entry_valid(*m, key@, fields@, i as int));
                return Err(invalid_ir("field layout contains a duplicate field ID", field.span));
            }
            j += 1;
        }
        let declaring = chars_of(field.declaring_owner.as_str());
        if declaring.len() == 0 || !derives_from_exec(m, key.as_str(), declaring.as_slice()) {
            assert(!layout_entry_valid(*m, key@, fields@, i as int));
            return Err(
                invalid_ir("field declaring owner is not in the layout hierarchy", field.span),
            );
        }
        i += 1;
    }
    if !base_prefix_preserved_exec(m, key, fields) {
        assert(!layout_valid(*m, k as int));
        return Err(
            invalid_ir("derived field layout must preserve the base layout prefix", layout.span),
        );
    }
    Ok(())
}

fn base_prefix_preserved_exec(m: &Module, key: &String, fields: &Vec<FieldLayoutEntry>) -> (r: bool)
    requires
        m.wf(),
    ensures
        r == base_prefix_preserved(*m, key@, fields@),
{
    let b = match m.find_base(key.as_str()) {
        Some(b) => b,
        None => return true,
    };
    let l = match m.find_layout(m.class_bases[b].1.as_str()) {
        Some(l) => l,
        None => return true,
    };
    let base = &m.field_layouts[l].1.fields;
    assert(base_of(*m, key@) == Some(m.class_bases@[b as int].1@));
    assert(layout_index(*m, m.class_bases@[b as int].1@) == Some(l as int));
    if fields.len() < base.len() {
        return false;
    }
    let mut i: usize = 0;
    while i < base.len()
        invariant
            0 <= i <= base@.len() <= fields@.len(),
            b < m.class_bases@.len(),
            l < m.field_layouts@.len(),
            base_of(*m, key@) == Some(m.class_bases@[b as int].1@),
            layout_index(*m, m.class_bases@[b as int].1@) == Some(l as int),
            *base == m.field_layouts@[l as int].1.fields,
            forall|a: int| 0 <= a < i ==> same_layout_field(fields@[a], #[trigger] base@[a]),
        decreases base@.len() - i,
    {
        if !same_layout_field_exec(&fields[i], &base[i]) {
            assert(!same_layout_field(fields@[i as int], base@[i as int]));
            return false;
        }
        i += 1;
    }
    true
}

/// The type of the field a member access refers to, when the access is
/// resolved consistently with the owner's layout.
pub open spec fn field_reference_type(m: Module, owner: Seq<char>, name: Seq<char>, f: FieldRef) -> Option<TypeV> {
    match field_reference_check(m, owner, name, f) {
        Ok(t) => Some(t),
        Err(_) => None,
    }
}

/// Why a resolved field reference disagrees with its owner's layout.
#[derive(Clone, Copy, Debug, PartialEq, Eq, Structural)]
pub enum FieldReferenceFault {
    /// The owner's layout has no field of that name.
    Unresolved,
    /// The reference names another field, slot or owner.
    Mismatched,
    /// The owner has no layout.
    MissingLayout,
    /// The layout has no entry at the reference's slot.
    MissingSlot,
}

/// A resolved field reference checked against its owner's layout, step by
/// step: the field's declared type, or the first step that fails.
pub open spec fn field_reference_check(m: Module, owner: Seq<char>, name: Seq<char>, f: FieldRef) -> Result<
    TypeV,
    FieldReferenceFault,
> {
    match spec_field_ref(m, owner, name) {
        None => Err(FieldReferenceFault::Unresolved),
        Some((id, slot)) => if !(f.owner@ == owner && f.id.0 == id && f.slot.0 == slot) {
            Err(FieldReferenceFault::Mismatched)
        } else {
            match layout_index(m, owner) {
                None => Err(FieldReferenceFault::MissingLayout),
                Some(l) => {
                    let fields = m.field_layouts@[l].1.fields@;
                    if slot < fields.len() {
                        Ok(fields[slot as int].ty@)
                    } else {
                        Err(FieldReferenceFault::MissingSlot)
                    }
                },
            }
        },
    }
}

/// The diagnostic message for a member access whose field reference fails.
pub open spec fn member_fault_message(e: FieldReferenceFault) -> Seq<char> {
    match e {
        FieldReferenceFault::Unresolved => "member field does not resolve in its owner layout"@,
        FieldReferenceFault::Mismatched => "resolved member field does not match its owner layout"@,
        FieldReferenceFault::MissingLayout => "member owner has no field layout"@,
        FieldReferenceFault::MissingSlot => "resolved member slot is absent"@,
    }
}

/// The diagnostic message for a field path whose component reference fails.
pub open spec fn path_fault_message(e: FieldReferenceFault) -> Seq<char> {
    match e {
        FieldReferenceFault::Unresolved => "field path does not resolve in its owner layout"@,
        FieldReferenceFault::Mismatched => "resolved field path does not match its owner layout"@,
        FieldReferenceFault::MissingLayout => "field path owner has no layout"@,
        FieldReferenceFault::MissingSlot => "resolved field slot is absent"@,
    }
}

/// Checks a resolved field reference against its owner's layout and returns
/// the field's declared type, or the first step that fails.
pub fn check_field_reference<'a>(m: &'a Module, owner: &String, name: &String, field: &FieldRef) -> (r:
    Result<&'a Type, FieldReferenceFault>)
    requires
        m.wf(),
    ensures
        r matches Ok(t) ==> field_reference_check(*m, owner@, name@, *field) == Ok::<TypeV, FieldReferenceFault>(t@),
        r matches Err(e) ==> field_reference_check(*m, owner@, name@, *field) == Err::<TypeV, FieldReferenceFault>(e),
{
    let expected = match m.field_ref(owner.as_str(), name.as_str()) {
        Some(e) => e,
        None => return Err(FieldReferenceFault::Unresolved),
    };
    if !(field.owner == expected.owner && field.id.0 == expected.id.0 && field.slot.0
        == expected.slot.0) {
        return Err(FieldReferenceFault::Mismatched);
    }
    let l = match m.find_layout(owner.as_str()) {
        Some(l) => l,
        None => return Err(FieldReferenceFault::MissingLayout),
    };
    let fields = &m.field_layouts[l].1.fields;
    let slot = field.slot.0 as usize;
    if slot < fields.len() {
        Ok(&fields[slot].ty)
    } else {
        Err(FieldReferenceFault::MissingSlot)
    }
}

/// Checks a member's resolved field against its owner's layout and returns
/// the field's declared type.
pub fn validate_field_reference<'a>(
    m: &'a Module,
    owner: &String,
    name: &String,
    field: &FieldRef,
    span: Span,
) -> (r: Result<&'a Type, Diagnostic>)
    requires
        m.wf(),
    ensures
        r is Ok <==> field_reference_type(*m, owner@, name@, *field) is Some,
        r matches Ok(t) ==> field_reference_type(*m, owner@, name@, *field) == Some(t@),
        r matches Err(d) ==> d.code@ == invalid_ir_code() && d.span == span && (field_reference_check(
            *m,
            owner@,
            name@,
            *field,
        ) matches Err(e) && d.message@ == member_fault_message(e)),
{
    match check_field_reference(m, owner, name, field) {
        Ok(t) => Ok(t),
        Err(FieldReferenceFault::Unresolved) => Err(
            invalid_ir("member field does not resolve in its owner layout", span),
        ),
        Err(FieldReferenceFault::Mismatched) => Err(
            invalid_ir("resolved member field does not match its owner layout", span),
        ),
        Err(FieldReferenceFault::MissingLayout) => Err(invalid_ir("member owner has no field layout", span)),
        Err(FieldReferenceFault::MissingSlot) => Err(invalid_ir("resolved member slot is absent", span)),
    }
}

/// `#<module>.<name>`: the owner spelling of an imported record or class.
pub open spec fn imported_owner(module: u32, name: Seq<char>) -> Seq<char> {
    seq!['#'] + decimal(module as nat) + seq!['.'] + name
}

/// The part of a dotted name before its last `.` (empty when it has none).
pub open spec fn before_last_dot(s: Seq<char>) -> Seq<char>
    decreases s.len(),
{
    if s.len() == 0 {
        s
    } else if s.last() == '.' {
        s.drop_last()
    } else {
        before_last_dot(s.drop_last())
    }
}

/// `prefix.name`, or `name` itself under an empty prefix.
pub open spec fn qualified(prefix: Seq<char>, name: Seq<char>) -> Seq<char> {
    if prefix.len() == 0 {
        name
    } else {
        prefix + seq!['.'] + name
    }
}

/// The layout owner of a field of type `ty` read through `current_owner`:
/// imported records by their module-qualified name, named records by their
/// own name or else qualified like the current owner.
pub open spec fn record_owner_for_type(m: Module, current_owner: Seq<char>, ty: TypeV) -> Option<Seq<char>> {
    match ty {
        TypeV::ImportedNamed { module, name } => {
            let owner = imported_owner(module, name);
            if layout_index(m, owner) is Some {
                Some(owner)
            } else {
                None
            }
        },
        TypeV::Named(name) => if layout_index(m, name) is Some {
            Some(name)
        } else {
            let owner = qualified(before_last_dot(current_owner), name);
            if layout_index(m, owner) is Some {
                Some(owner)
            } else {
                None
            }
        },
        _ => None,
    }
}

/// The type a resolved field path ends at, following record fields.
pub open spec fn path_type(m: Module, owner: Seq<char>, path: Seq<String>, refs: Seq<FieldRef>) -> Option<TypeV>
    decreases path.len(),
{
    if path.len() == 0 || refs.len() == 0 {
        None
    } else {
        match field_reference_type(m, owner, path[0]@, refs[0]) {
            None => None,
            Some(t) => if path.len() == 1 {
                Some(t)
            } else {
                match record_owner_for_type(m, owner, t) {
                    Some(next) => path_type(m, next, path.skip(1), refs.skip(1)),
                    None => None,
                }
            },
        }
    }
}

/// The first failure met while following a resolved field path.
pub open spec fn path_error(m: Module, owner: Seq<char>, path: Seq<String>, refs: Seq<FieldRef>) -> Option<
    Seq<char>,
>
    decreases path.len(),
{
    if path.len() == 0 || refs.len() == 0 {
        Some("field path has no terminal field"@)
    } else {
        match field_reference_check(m, owner, path[0]@, refs[0]) {
            Err(e) => Some(path_fault_message(e)),
            Ok(t) => if path.len() == 1 {
                None
            } else {
                match record_owner_for_type(m, owner, t) {
                    Some(next) => path_error(m, next, path.skip(1), refs.skip(1)),
                    None => Some("non-final field path component is not a record"@),
                }
            },
        }
    }
}

pub open spec fn refs_view(fields: Option<Vec<FieldRef>>) -> Option<Seq<FieldRef>> {
    match fields {
        Some(v) => Some(v@),
        None => None,
    }
}

/// The terminal type of a field-path store when it is well formed.
pub open spec fn resolved_path_type(
    m: Module,
    root: Seq<char>,
    path: Seq<String>,
    fields: Option<Seq<FieldRef>>,
) -> Option<TypeV> {
    if root.len() == 0 || path.len() == 0 || exists|i: int|
        0 <= i < path.len() && (#[trigger] path[i])@.len() == 0 {
        None
    } else {
        match fields {
            None => None,
            Some(refs) => if refs.len() != path.len() {
                None
            } else {
                path_type(m, root, path, refs)
            },
        }
    }
}

pub proof fn lemma_before_last_dot(s: Seq<char>, k: int)
    requires
        -1 <= k < s.len(),
        k >= 0 ==> s[k] == '.',
        forall|j: int| k < j < s.len() ==> s[j] != '.',
    ensures
        before_last_dot(s) == (if k >= 0 {
            s.take(k)
        } else {
            Seq::empty()
        }),
    decreases s.len(),
{
    if s.len() == 0 {
    } else if s.last() == '.' {
        assert(k == s.len() - 1);
        assert(s.drop_last() =~= s.take(k));
    } else {
        lemma_before_last_dot(s.drop_last(), k);
        if k >= 0 {
            assert(s.drop_last().take(k) =~= s.take(k));
        }
    }
}

fn imported_owner_exec(module: u32, name: &String) -> (r: String)
    ensures
        r@ == imported_owner(module, name@),
{
    let mut s = String::new();
    push_char(&mut s, '#');
    push_decimal(&mut s, module as u128);
    push_char(&mut s, '.');
    push_str(&mut s, name.as_str());
    assert(s@ =~= imported_owner(module, name@));
    s
}

/// Executable [`record_owner_for_type`].
pub fn record_owner_for_type_exec(m: &Module, current_owner: &String, ty: &Type) -> (r: Option<String>)
    requires
        m.wf(),
    ensures
        r matches Some(o) ==> record_owner_for_type(*m, current_owner@, ty@) == Some(o@),
        r is None ==> record_owner_for_type(*m, current_owner@, ty@) is None,
{
    match ty {
        Type::ImportedNamed { module, name } => {
            let owner = imported_owner_exec(module.0, name);
            if m.find_layout(owner.as_str()).is_some() {
                Some(owner)
            } else {
                None
            }
        },
        Type::Named(name) => {
            if m.find_layout(name.as_str()).is_some() {
                return Some(name.clone());
            }
            let cur = chars_of(current_owner.as_str());
            let mut owner = String::new();
            match crate::text::rfind_char(&cur, 0, cur.len(), '.') {
                Some(dot) => {
                    proof {
                        lemma_before_last_dot(cur@, dot as int);
                    }
                    if dot > 0 {
                        let mut i: usize = 0;
                        while i < dot
                            invariant
                                0 <= i <= dot < cur@.len(),
                                owner@ == cur@.take(i as int),
                            decreases dot - i,
                        {
                            push_char(&mut owner, cur[i]);
                            i += 1;
                            assert(owner@ =~= cur@.take(i as int));
                        }
                        push_char(&mut owner, '.');
                        push_str(&mut owner, name.as_str());
                        assert(owner@ =~= qualified(before_last_dot(current_owner@), name@));
                    } else {
                        assert(cur@.take(0) =~= Seq::<char>::empty());
                        push_str(&mut owner, name.as_str());
                        assert(owner@ =~= qualified(before_last_dot(current_owner@), name@));
                    }
                },
                None => {
                    proof {
                        lemma_before_last_dot(cur@, -1);
                    }
                    push_str(&mut owner, name.as_str());
                    assert(owner@ =~= qualified(before_last_dot(current_owner@), name@));
                },
            }
            if m.find_layout(owner.as_str()).is_some() {
                Some(owner)
            } else {
                None
            }
        },
        _ => None,
    }
}

/// The message with which a field-path store is refused, if it is.
pub open spec fn resolved_path_error(
    m: Module,
    root: Seq<char>,
    path: Seq<String>,
    fields: Option<Seq<FieldRef>>,
) -> Option<Seq<char>> {
    if root.len() == 0 || path.len() == 0 || exists|i: int|
        0 <= i < path.len() && (#[trigger] path[i])@.len() == 0 {
        Some("field path cannot be empty"@)
    } else {
        match fields {
            None => Some("field path store must carry resolved fields"@),
            Some(refs) => if refs.len() != path.len() {
                Some("resolved field path length must match its spelling path"@)
            } else {
                path_error(m, root, path, refs)
            },
        }
    }
}

/// Checks a field-path store against the layouts along the path and returns
/// the type of the field it stores into.
pub fn validate_resolved_field_path<'a>(
    m: &'a Module,
    root_owner: &String,
    path: &Vec<String>,
    fields: &Option<Vec<FieldRef>>,
    span: Span,
) -> (r: Result<&'a Type, Diagnostic>)
    requires
        m.wf(),
    ensures
        r is Ok <==> resolved_path_type(*m, root_owner@, path@, refs_view(*fields)) is Some,
        r matches Ok(t) ==> resolved_path_type(*m, root_owner@, path@, refs_view(*fields)) == Some(t@),
        r is Ok <==> resolved_path_error(*m, root_owner@, path@, refs_view(*fields)) is None,
        r matches Err(d) ==> d.code@ == invalid_ir_code() && d.span == span && resolved_path_error(
            *m,
            root_owner@,
            path@,
            refs_view(*fields),
        ) == Some(d.message@),
{
    if root_owner.as_str().is_empty() || path.len() == 0 {
        return Err(invalid_ir("field path cannot be empty", span));
    }
    let mut e: usize = 0;
    while e < path.len()
        invariant
            0 <= e <= path@.len(),
            forall|a: int| 0 <= a < e ==> (#[trigger] path@[a])@.len() > 0,
        decreases path@.len() - e,
    {
        if path[e].as_str().is_empty() {
            return Err(invalid_ir("field path cannot be empty", span));
        }
        e += 1;
    }
    let refs = match fields {
        Some(refs) => refs,
        None => return Err(invalid_ir("field path store must carry resolved fields", span)),
    };
    if refs.len() != path.len() {
        return Err(invalid_ir("resolved field path length must match its spelling path", span));
    }
    let ghost full = path_type(*m, root_owner@, path@, refs@);
    assert(path@.skip(0) =~= path@);
    assert(refs@.skip(0) =~= refs@);
    let mut owner = root_owner.clone();
    let mut i: usize = 0;
    loop
        invariant
            m.wf(),
            0 <= i < path@.len(),
            refs@.len() == path@.len(),
            root_owner@.len() > 0,
            *fields == Some(*refs),
            forall|a: int| 0 <= a < path@.len() ==> (#[trigger] path@[a])@.len() > 0,
            full == path_type(*m, root_owner@, path@, refs@),
            full == path_type(*m, owner@, path@.skip(i as int), refs@.skip(i as int)),
            resolved_path_error(*m, root_owner@, path@, refs_view(*fields)) == path_error(
                *m,
                owner@,
                path@.skip(i as int),
                refs@.skip(i as int),
            ),
        decreases path@.len() - i,
    {
        assert(path@.skip(i as int)[0] == path@[i as int]);
        assert(refs@.skip(i as int)[0] == refs@[i as int]);
        let t = match check_field_reference(m, &owner, &path[i], &refs[i]) {
            Ok(t) => t,
            Err(FieldReferenceFault::Unresolved) => {
                return Err(invalid_ir("field path does not resolve in its owner layout", span));
            },
            Err(FieldReferenceFault::Mismatched) => {
                return Err(invalid_ir("resolved field path does not match its owner layout", span));
            },
            Err(FieldReferenceFault::MissingLayout) => {
                return Err(invalid_ir("field path owner has no layout", span));
            },
            Err(FieldReferenceFault::MissingSlot) => {
                return Err(invalid_ir("resolved field slot is absent", span));
            },
        };
        if i == path.len() - 1 {
            return Ok(t);
        }
        let next = match record_owner_for_type_exec(m, &owner, t) {
            Some(next) => next,
            None => return Err(invalid_ir("non-final field path component is not a record", span)),
        };
        assert(path@.skip(i as int).skip(1) =~= path@.skip(i + 1));
        assert(refs@.skip(i as int).skip(1) =~= refs@.skip(i + 1));
        owner = next;
        i += 1;
    }
}

/// A layout key that names `name` itself or ends in `.name`.
pub open spec fn layout_key_names(key: Seq<char>, name: Seq<char>) -> bool {
    key == name || (key.len() > name.len() && key.skip(key.len() - name.len()) == name && key[key.len()
        - name.len() - 1] == '.')
}

/// Some layout whose key names `name` is, or derives from, `owner`.
pub open spec fn named_receiver_matches(m: Module, name: Seq<char>, owner: Seq<char>) -> bool {
    exists|k: int|
        0 <= k < m.field_layouts@.len() && layout_key_names((#[trigger] m.field_layouts@[k]).0@, name)
            && derives_from(m, m.field_layouts@[k].0@, owner)
}

/// Whether a receiver of type `receiver` has `owner`'s layout as its own or
/// as a base layout.
pub open spec fn receiver_matches_owner(m: Module, receiver: TypeV, owner: Seq<char>) -> bool
    decreases receiver, 1nat, 0nat,
{
    match receiver {
        TypeV::ImportedNamed { module, name } => derives_from(m, imported_owner(module, name), owner),
        TypeV::Named(name) => named_receiver_matches(m, name, owner),
        TypeV::TypeName(name) => named_receiver_matches(m, name, owner),
        TypeV::Alternative(options) => some_receiver_option(m, receiver, owner, options.len()),
        _ => false,
    }
}

/// One of the first `n` options of `receiver` matches `owner`.
pub open spec fn some_receiver_option(m: Module, receiver: TypeV, owner: Seq<char>, n: nat) -> bool
    decreases receiver, 0nat, n,
{
    match receiver {
        TypeV::Alternative(options) => if n == 0 || n > options.len() {
            false
        } else {
            receiver_matches_owner(m, options[n - 1], owner) || some_receiver_option(
                m,
                receiver,
                owner,
                (n - 1) as nat,
            )
        },
        _ => false,
    }
}

fn layout_key_names_exec(key: &Vec<char>, name: &Vec<char>) -> (r: bool)
    ensures
        r == layout_key_names(key@, name@),
{
    if crate::text::chars_are(key, name.as_slice()) {
        return true;
    }
    if key.len() > name.len() {
        let start = key.len() - name.len();
        crate::text::range_is(key, start, key.len(), name.as_slice()) && key[start - 1] == '.'
    } else {
        false
    }
}

fn named_receiver_matches_exec(m: &Module, name: &String, owner: &Vec<char>) -> (r: bool)
    requires
        m.wf(),
        bases_acyclic(*m),
    ensures
        r == named_receiver_matches(*m, name@, owner@),
{
    let n = chars_of(name.as_str());
    let mut k: usize = 0;
    while k < m.field_layouts.len()
        invariant
            0 <= k <= m.field_layouts@.len(),
            m.wf(),
            bases_acyclic(*m),
            n@ == name@,
            forall|a: int|
                0 <= a < k ==> !(layout_key_names((#[trigger] m.field_layouts@[a]).0@, name@)
                    && derives_from(*m, m.field_layouts@[a].0@, owner@)),
        decreases m.field_layouts@.len() - k,
    {
        let key = chars_of(m.field_layouts[k].0.as_str());
        if layout_key_names_exec(&key, &n) && derives_from_exec(
            m,
            m.field_layouts[k].0.as_str(),
            owner.as_slice(),
        ) {
            return true;
        }
        k += 1;
    }
    false
}

/// Executable [`receiver_matches_owner`].
pub fn receiver_matches_owner_exec(m: &Module, receiver: &Type, owner: &Vec<char>) -> (r: bool)
    requires
        m.wf(),
        bases_acyclic(*m),
    ensures
        r == receiver_matches_owner(*m, receiver@, owner@),
    decreases receiver,
{
    match receiver {
        Type::ImportedNamed { module, name } => {
            let o = imported_owner_exec(module.0, name);
            derives_from_exec(m, o.as_str(), owner.as_slice())
        },
        Type::Named(name) | Type::TypeName(name) => named_receiver_matches_exec(m, name, owner),
        Type::Alternative(options) => {
            proof {
                crate::types::lemma_types_view(options@);
            }
            let ghost rv = receiver@;
            assert(rv == TypeV::Alternative(crate::types::types_view(options@)));
            let mut i: usize = options.len();
            while i > 0
                invariant
                    0 <= i <= options@.len(),
                    m.wf(),
                    bases_acyclic(*m),
                    rv == receiver@,
                    *receiver == Type::Alternative(*options),
                    receiver->Alternative_0 == *options,
                    rv == TypeV::Alternative(crate::types::types_view(options@)),
                    crate::types::types_view(options@).len() == options@.len(),
                    forall|j: int|
                        0 <= j < options@.len() ==> #[trigger] crate::types::types_view(options@)[j]
                            == crate::types::type_view(options@[j]),
                    some_receiver_option(*m, rv, owner@, options@.len() as nat) == some_receiver_option(
                        *m,
                        rv,
                        owner@,
                        i as nat,
                    ),
                decreases i,
            {
                proof {
                    assert(decreases_to!(*receiver => *options));
                    assert(decreases_to!(*options => options@));
                    assert(decreases_to!(options@ => options@[i - 1]));
                }
                if receiver_matches_owner_exec(m, &options[i - 1], owner) {
                    assert(crate::types::types_view(options@)[i - 1] == crate::types::type_view(
                        options@[i - 1],
                    ));
                    return true;
                }
                i -= 1;
            }
            false
        },
        _ => false,
    }
}

} // verus!
