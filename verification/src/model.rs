//! The BN IR data model.
use vstd::prelude::*;
use crate::source::Span;
use crate::text::text_less;
pub use crate::types::{ModuleId, Type, TypeV};

verus! {

#[derive(Clone, Copy, Debug, PartialEq, Eq, Structural)]
pub struct BlockId(pub u32);

#[derive(Clone, Copy, Debug, PartialEq, Eq, Structural)]
pub struct ValueId(pub u32);

#[derive(Clone, Copy, Debug, PartialEq, Eq, Structural)]
pub struct SymbolId(pub u32);

impl SymbolId {
    pub fn from_raw(id: u32) -> (r: Self)
        ensures
            r.0 == id,
    {
        Self(id)
    }

    pub fn value(self) -> (r: u32)
        ensures
            r == self.0,
    {
        self.0
    }
}

/// Module-local identity of one interned record or class field name.
#[derive(Clone, Copy, Debug, PartialEq, Eq, Structural)]
pub struct FieldId(pub u32);

impl FieldId {
    pub fn from_raw(id: u32) -> (r: Self)
        ensures
            r.0 == id,
    {
        Self(id)
    }

    pub fn value(self) -> (r: u32)
        ensures
            r == self.0,
    {
        self.0
    }
}

/// Checked positional address of a field in its owner's complete layout.
#[derive(Clone, Copy, Debug, PartialEq, Eq, Structural)]
pub struct FieldSlot(pub u32);

impl FieldSlot {
    pub fn from_raw(slot: u32) -> (r: Self)
        ensures
            r.0 == slot,
    {
        Self(slot)
    }

    pub fn value(self) -> (r: u32)
        ensures
            r == self.0,
    {
        self.0
    }
}

impl ValueId {
    pub fn value(self) -> (r: u32)
        ensures
            r == self.0,
    {
        self.0
    }
}

/// Resolved field access carried by lowered IR instructions.
#[derive(Debug)]
pub struct FieldRef {
    pub owner: String,
    pub id: FieldId,
    pub slot: FieldSlot,
}

/// One field in an ordered record/class layout.
#[derive(Debug)]
pub struct FieldLayoutEntry {
    pub id: FieldId,
    pub slot: FieldSlot,
    pub ty: Type,
    pub declaring_owner: String,
    pub weak: bool,
    pub span: Span,
}

/// Complete, base-first positional layout for one record/class owner.
#[derive(Debug)]
pub struct FieldLayout {
    pub owner: String,
    pub fields: Vec<FieldLayoutEntry>,
    pub span: Span,
}

/// A module. `field_layouts` and `class_bases` are maps written as lists of
/// (key, value) pairs; [`Module::wf`] states that their keys are distinct.
#[derive(Debug)]
pub struct Module {
    pub source_name: Option<String>,
    pub functions: Vec<Function>,
    /// Interned field spellings, indexed by [`FieldId`].
    pub field_names: Vec<String>,
    /// Complete record/class layouts keyed by fully-qualified owner.
    pub field_layouts: Vec<(String, FieldLayout)>,
    /// Fully qualified class identity to its fully qualified direct base.
    pub class_bases: Vec<(String, String)>,
    pub bndata_providers: Vec<ModuleId>,
    pub bnmath_providers: Vec<ModuleId>,
    pub bnlog_providers: Vec<ModuleId>,
    pub bnjson_providers: Vec<ModuleId>,
    pub bnweb_providers: Vec<ModuleId>,
    pub bndispatch_providers: Vec<ModuleId>,
    pub bncrypto_providers: Vec<ModuleId>,
    pub filesystem_import: Option<Span>,
    pub clock_import: Option<Span>,
    pub random_import: Option<Span>,
    pub console_import: Option<Span>,
    pub network_import: Option<Span>,
    pub exec_import: Option<Span>,
    pub bnlog_import: Option<Span>,
    pub bnweb_import: Option<Span>,
}

/// Role of a function in the module. Backends read this, never the name.
#[derive(Clone, Copy, Debug, PartialEq, Eq, Structural)]
pub enum FunctionKind {
    /// A user-declared function or method.
    User,
    /// The program entry point (`Start`).
    Entry,
    /// Class constructor body.
    Constructor,
    /// Class destructor body, run by ARC when the strong count reaches zero.
    Destructor,
    /// Field-initialiser prologue run by `NEW` before the constructor.
    FieldInit,
    /// Construction helper: allocate, run `FieldInit`, then `Constructor`.
    Init,
    /// Value-type (struct) default constructor.
    Default,
}

#[derive(Debug)]
pub struct Function {
    pub name: String,
    pub kind: FunctionKind,
    /// Class / struct / module that owns the function; `None` for free
    /// functions and the entry point.
    pub owner: Option<String>,
    pub asynchronous: bool,
    pub parameters: Vec<SymbolId>,
    /// Local bindings declared with `AS WEAK`.
    pub weak_symbols: Vec<SymbolId>,
    pub return_type: Type,
    pub entry: BlockId,
    pub blocks: Vec<BasicBlock>,
    pub span: Span,
}

#[derive(Debug)]
pub struct BasicBlock {
    pub id: BlockId,
    pub instructions: Vec<Instruction>,
    pub terminator: Terminator,
}

#[derive(Debug)]
pub enum Instruction {
    Constant { destination: ValueId, value: Constant, ty: Type, span: Span },
    Default {
        destination: ValueId,
        ty: Type,
        dimensions: Vec<usize>,
        dynamic_dimensions: Vec<ValueId>,
        span: Span,
    },
    Phi { destination: ValueId, incoming: Vec<(BlockId, ValueId)>, ty: Type, span: Span },
    Load { destination: ValueId, symbol: SymbolId, ty: Type, span: Span },
    Store { symbol: SymbolId, value: ValueId, ty: Type, span: Span },
    Copy { destination: ValueId, source: ValueId, ty: Type, span: Span },
    Unary { destination: ValueId, operator: String, operand: ValueId, ty: Type, span: Span },
    Binary {
        destination: ValueId,
        operator: String,
        left: ValueId,
        right: ValueId,
        ty: Type,
        span: Span,
    },
    Cast { destination: ValueId, value: ValueId, ty: Type, span: Span },
    Call { destination: ValueId, callee: ValueId, arguments: Vec<ValueId>, ty: Type, span: Span },
    DispatchSubmit {
        destination: ValueId,
        callee: ValueId,
        queue: ValueId,
        task: ValueId,
        arguments: Vec<ValueId>,
        ty: Type,
        span: Span,
    },
    DispatchAwait {
        destination: ValueId,
        callee: ValueId,
        ticket: ValueId,
        timeout: ValueId,
        ty: Type,
        span: Span,
    },
    Input { destination: ValueId, prompt: Option<ValueId>, ty: Type, span: Span },
    Vector { destination: ValueId, values: Vec<ValueId>, ty: Type, span: Span },
    Index { destination: ValueId, object: ValueId, index: ValueId, ty: Type, span: Span },
    Member {
        destination: ValueId,
        object: ValueId,
        field: Option<FieldRef>,
        name: String,
        owner: String,
        ty: Type,
        span: Span,
    },
    SetIndex { symbol: SymbolId, indices: Vec<ValueId>, value: ValueId, ty: Type, span: Span },
    SetMemberIndex {
        object: ValueId,
        field: Option<FieldRef>,
        name: String,
        owner: String,
        indices: Vec<ValueId>,
        value: ValueId,
        ty: Type,
        span: Span,
    },
    SetFieldIndex {
        symbol: SymbolId,
        root_owner: String,
        path: Vec<String>,
        fields: Option<Vec<FieldRef>>,
        indices: Vec<ValueId>,
        value: ValueId,
        ty: Type,
        span: Span,
    },
    SetStaticIndex {
        class: String,
        field: String,
        indices: Vec<ValueId>,
        value: ValueId,
        ty: Type,
        span: Span,
    },
    Length { destination: ValueId, vector: ValueId, span: Span },
    SizeOf { destination: ValueId, value: ValueId, span: Span },
    Print { values: Vec<ValueId>, span: Span },
    ClearScreen { console: ValueId, span: Span },
    Beep { console: ValueId, span: Span },
    Allocate {
        destination: ValueId,
        allocated: String,
        arguments: Vec<ValueId>,
        ty: Type,
        span: Span,
    },
    Release { value: ValueId, destructor: Option<String>, span: Span },
    SetMember {
        object: ValueId,
        field: Option<FieldRef>,
        name: String,
        owner: String,
        value: ValueId,
        ty: Type,
        span: Span,
    },
    SetField {
        symbol: SymbolId,
        root_owner: String,
        path: Vec<String>,
        fields: Option<Vec<FieldRef>>,
        value: ValueId,
        ty: Type,
        span: Span,
    },
    EnsureClass { class: String, span: Span },
    LoadStatic { destination: ValueId, class: String, field: String, ty: Type, span: Span },
    StoreStatic { class: String, field: String, value: ValueId, ty: Type, span: Span },
}

pub open spec fn spec_span(i: Instruction) -> Span {
    match i {
        Instruction::Constant { span, .. } => span,
        Instruction::Default { span, .. } => span,
        Instruction::Phi { span, .. } => span,
        Instruction::Load { span, .. } => span,
        Instruction::Store { span, .. } => span,
        Instruction::Copy { span, .. } => span,
        Instruction::Unary { span, .. } => span,
        Instruction::Binary { span, .. } => span,
        Instruction::Cast { span, .. } => span,
        Instruction::Call { span, .. } => span,
        Instruction::DispatchSubmit { span, .. } => span,
        Instruction::DispatchAwait { span, .. } => span,
        Instruction::Input { span, .. } => span,
        Instruction::Vector { span, .. } => span,
        Instruction::Index { span, .. } => span,
        Instruction::Member { span, .. } => span,
        Instruction::SetIndex { span, .. } => span,
        Instruction::SetMemberIndex { span, .. } => span,
        Instruction::SetFieldIndex { span, .. } => span,
        Instruction::SetStaticIndex { span, .. } => span,
        Instruction::Length { span, .. } => span,
        Instruction::SizeOf { span, .. } => span,
        Instruction::Print { span, .. } => span,
        Instruction::ClearScreen { span, .. } => span,
        Instruction::Beep { span, .. } => span,
        Instruction::Allocate { span, .. } => span,
        Instruction::Release { span, .. } => span,
        Instruction::SetMember { span, .. } => span,
        Instruction::SetField { span, .. } => span,
        Instruction::EnsureClass { span, .. } => span,
        Instruction::LoadStatic { span, .. } => span,
        Instruction::StoreStatic { span, .. } => span,
    }
}

impl Instruction {
    /// The source span of the instruction.
    pub fn span(&self) -> (s: Span)
        ensures
            s == spec_span(*self),
    {
        match self {
            Instruction::Constant { span, .. } => *span,
            Instruction::Default { span, .. } => *span,
            Instruction::Phi { span, .. } => *span,
            Instruction::Load { span, .. } => *span,
            Instruction::Store { span, .. } => *span,
            Instruction::Copy { span, .. } => *span,
            Instruction::Unary { span, .. } => *span,
            Instruction::Binary { span, .. } => *span,
            Instruction::Cast { span, .. } => *span,
            Instruction::Call { span, .. } => *span,
            Instruction::DispatchSubmit { span, .. } => *span,
            Instruction::DispatchAwait { span, .. } => *span,
            Instruction::Input { span, .. } => *span,
            Instruction::Vector { span, .. } => *span,
            Instruction::Index { span, .. } => *span,
            Instruction::Member { span, .. } => *span,
            Instruction::SetIndex { span, .. } => *span,
            Instruction::SetMemberIndex { span, .. } => *span,
            Instruction::SetFieldIndex { span, .. } => *span,
            Instruction::SetStaticIndex { span, .. } => *span,
            Instruction::Length { span, .. } => *span,
            Instruction::SizeOf { span, .. } => *span,
            Instruction::Print { span, .. } => *span,
            Instruction::ClearScreen { span, .. } => *span,
            Instruction::Beep { span, .. } => *span,
            Instruction::Allocate { span, .. } => *span,
            Instruction::Release { span, .. } => *span,
            Instruction::SetMember { span, .. } => *span,
            Instruction::SetField { span, .. } => *span,
            Instruction::EnsureClass { span, .. } => *span,
            Instruction::LoadStatic { span, .. } => *span,
            Instruction::StoreStatic { span, .. } => *span,
        }
    }
}

#[derive(Debug)]
pub enum Terminator {
    Jump { target: BlockId },
    Branch { condition: ValueId, then_block: BlockId, else_block: BlockId },
    Return { value: Option<ValueId> },
    Stop { code: ValueId },
}

#[derive(Debug)]
pub enum Constant {
    Integer(String),
    Float(String),
    String(String),
    Boolean(bool),
    Null,
    NotAvailable,
    EndOfFile,
    Function(String),
    Type(String),
    HostConsole,
    HostArgs,
}

/// Index of the layout stored under `owner`.
pub open spec fn layout_index(m: Module, owner: Seq<char>) -> Option<int> {
    if exists|i: int| 0 <= i < m.field_layouts@.len() && (#[trigger] m.field_layouts@[i]).0@ == owner {
        Some(
            choose|i: int| 0 <= i < m.field_layouts@.len() && (#[trigger] m.field_layouts@[i]).0@ == owner,
        )
    } else {
        None
    }
}

/// Index of the class-base entry of `class`.
pub open spec fn base_index(m: Module, class: Seq<char>) -> Option<int> {
    if exists|i: int| 0 <= i < m.class_bases@.len() && (#[trigger] m.class_bases@[i]).0@ == class {
        Some(
            choose|i: int| 0 <= i < m.class_bases@.len() && (#[trigger] m.class_bases@[i]).0@ == class,
        )
    } else {
        None
    }
}

/// The direct base of `class`, if it has one.
pub open spec fn base_of(m: Module, class: Seq<char>) -> Option<Seq<char>> {
    match base_index(m, class) {
        Some(i) => Some(m.class_bases@[i].1@),
        None => None,
    }
}

/// Whether a name is the spelling of interned field `id`.
pub open spec fn field_named(m: Module, id: FieldId, name: Seq<char>) -> bool {
    id.0 < m.field_names@.len() && m.field_names@[id.0 as int]@ == name
}

/// The first entry of `owner`'s layout whose interned spelling is `name`.
pub open spec fn field_entry_index(m: Module, owner: Seq<char>, name: Seq<char>) -> Option<int> {
    match layout_index(m, owner) {
        Some(l) => {
            let fields = m.field_layouts@[l].1.fields@;
            if exists|i: int| 0 <= i < fields.len() && field_named(m, (#[trigger] fields[i]).id, name) {
                Some(
                    choose|i: int|
                        0 <= i < fields.len() && field_named(m, (#[trigger] fields[i]).id, name)
                            && forall|j: int| 0 <= j < i ==> !field_named(m, fields[j].id, name),
                )
            } else {
                None
            }
        },
        None => None,
    }
}

/// The resolved reference `(id, slot)` of field `name` in `owner`'s layout.
pub open spec fn spec_field_ref(m: Module, owner: Seq<char>, name: Seq<char>) -> Option<(u32, u32)> {
    match field_entry_index(m, owner, name) {
        Some(i) => {
            let e = m.field_layouts@[layout_index(m, owner)->0].1.fields@[i];
            Some((e.id.0, e.slot.0))
        },
        None => None,
    }
}

/// The name of the standard library that module `id` provides.
pub open spec fn spec_standard_library_of(m: Module, id: ModuleId) -> Option<Seq<char>> {
    if m.bnmath_providers@.contains(id) {
        Some("BNMath"@)
    } else if m.bndata_providers@.contains(id) {
        Some("BNData"@)
    } else if m.bnlog_providers@.contains(id) {
        Some("BNLog"@)
    } else if m.bnjson_providers@.contains(id) {
        Some("BNJson"@)
    } else if m.bnweb_providers@.contains(id) {
        Some("BNWeb"@)
    } else if m.bndispatch_providers@.contains(id) {
        Some("BNDispatch"@)
    } else if m.bncrypto_providers@.contains(id) {
        Some("BNCrypto"@)
    } else {
        None
    }
}

/// Whether `f` has kind `kind` and owner `owner`.
pub open spec fn is_owned_of_kind(f: Function, kind: FunctionKind, owner: Seq<char>) -> bool {
    f.kind == kind && (f.owner matches Some(o) && o@ == owner)
}

/// The layouts are held in ascending order of their owner keys, as a sorted
/// map walks them.
pub open spec fn layouts_sorted(layouts: Seq<(String, FieldLayout)>) -> bool {
    forall|i: int| 0 <= i < layouts.len() - 1 ==> text_less((#[trigger] layouts[i]).0@, layouts[i + 1].0@)
}

/// Index of the first function satisfying `p`.
pub open spec fn first_function(m: Module, p: spec_fn(Function) -> bool) -> Option<int> {
    if exists|i: int| 0 <= i < m.functions@.len() && p(#[trigger] m.functions@[i]) {
        Some(
            choose|i: int|
                0 <= i < m.functions@.len() && p(#[trigger] m.functions@[i]) && forall|j: int|
                    0 <= j < i ==> !p(m.functions@[j]),
        )
    } else {
        None
    }
}

fn contains_module(ids: &Vec<ModuleId>, id: ModuleId) -> (r: bool)
    ensures
        r == ids@.contains(id),
{
    let mut i: usize = 0;
    while i < ids.len()
        invariant
            0 <= i <= ids@.len(),
            forall|j: int| 0 <= j < i ==> ids@[j] != id,
        decreases ids@.len() - i,
    {
        if ids[i].0 == id.0 {
            assert(ids@[i as int] == id);
            return true;
        }
        i += 1;
    }
    false
}

impl Module {
    /// Keys of the layout map and of the class-base map are distinct.
    pub open spec fn wf(&self) -> bool {
        &&& forall|i: int, j: int|
            0 <= i < j < self.field_layouts@.len() ==> (#[trigger] self.field_layouts@[i]).0@
                != (#[trigger] self.field_layouts@[j]).0@
        &&& forall|i: int, j: int|
            0 <= i < j < self.class_bases@.len() ==> (#[trigger] self.class_bases@[i]).0@
                != (#[trigger] self.class_bases@[j]).0@
        &&& layouts_sorted(self.field_layouts@)
    }

    /// An empty module with no functions, layouts, providers or imports.
    pub fn empty() -> (m: Module)
        ensures
            m.wf(),
            m.functions@.len() == 0,
            m.field_names@.len() == 0,
            m.field_layouts@.len() == 0,
            m.class_bases@.len() == 0,
    {
        Module {
            source_name: None,
            functions: Vec::new(),
            field_names: Vec::new(),
            field_layouts: Vec::new(),
            class_bases: Vec::new(),
            bndata_providers: Vec::new(),
            bnmath_providers: Vec::new(),
            bnlog_providers: Vec::new(),
            bnjson_providers: Vec::new(),
            bnweb_providers: Vec::new(),
            bndispatch_providers: Vec::new(),
            bncrypto_providers: Vec::new(),
            filesystem_import: None,
            clock_import: None,
            random_import: None,
            console_import: None,
            network_import: None,
            exec_import: None,
            bnlog_import: None,
            bnweb_import: None,
        }
    }

    /// Whether the two maps have distinct keys.
    pub fn maps_are_well_formed(&self) -> (r: bool)
        ensures
            r == self.wf(),
    {
        let n = self.field_layouts.len();
        let mut i: usize = 0;
        while i < n
            invariant
                0 <= i <= n,
                n == self.field_layouts@.len(),
                forall|a: int, b: int|
                    0 <= a < b < n && a < i ==> (#[trigger] self.field_layouts@[a]).0@
                        != (#[trigger] self.field_layouts@[b]).0@,
            decreases n - i,
        {
            let mut j = i + 1;
            while j < n
                invariant
                    i < n,
                    i + 1 <= j <= n,
                    n == self.field_layouts@.len(),
                    forall|a: int, b: int|
                        0 <= a < b < n && a < i ==> (#[trigger] self.field_layouts@[a]).0@
                            != (#[trigger] self.field_layouts@[b]).0@,
                    forall|b: int| i < b < j ==> self.field_layouts@[i as int].0@ != (
                    #[trigger] self.field_layouts@[b]).0@,
                decreases n - j,
            {
                if self.field_layouts[i].0 == self.field_layouts[j].0 {
                    return false;
                }
                j += 1;
            }
            i += 1;
        }
        let n = self.class_bases.len();
        let mut i: usize = 0;
        while i < n
            invariant
                0 <= i <= n,
                n == self.class_bases@.len(),
                forall|a: int, b: int|
                    0 <= a < b < self.field_layouts@.len() ==> (#[trigger] self.field_layouts@[a]).0@
                        != (#[trigger] self.field_layouts@[b]).0@,
                forall|a: int, b: int|
                    0 <= a < b < n && a < i ==> (#[trigger] self.class_bases@[a]).0@ != (
                    #[trigger] self.class_bases@[b]).0@,
            decreases n - i,
        {
            let mut j = i + 1;
            while j < n
                invariant
                    i < n,
                    i + 1 <= j <= n,
                    n == self.class_bases@.len(),
                    forall|a: int, b: int|
                        0 <= a < b < n && a < i ==> (#[trigger] self.class_bases@[a]).0@ != (
                        #[trigger] self.class_bases@[b]).0@,
                    forall|b: int| i < b < j ==> self.class_bases@[i as int].0@ != (
                    #[trigger] self.class_bases@[b]).0@,
                decreases n - j,
            {
                if self.class_bases[i].0 == self.class_bases[j].0 {
                    return false;
                }
                j += 1;
            }
            i += 1;
        }
        let mut k: usize = 1;
        while k < self.field_layouts.len()
            invariant
                1 <= k,
                k <= self.field_layouts@.len() || self.field_layouts@.len() == 0,
                forall|a: int, b: int|
                    0 <= a < b < self.field_layouts@.len() ==> (#[trigger] self.field_layouts@[a]).0@
                        != (#[trigger] self.field_layouts@[b]).0@,
                forall|a: int, b: int|
                    0 <= a < b < self.class_bases@.len() ==> (#[trigger] self.class_bases@[a]).0@
                        != (#[trigger] self.class_bases@[b]).0@,
                forall|a: int| 0 <= a < k - 1 ==> text_less(
                    (#[trigger] self.field_layouts@[a]).0@,
                    self.field_layouts@[a + 1].0@,
                ),
            decreases self.field_layouts@.len() - k,
        {
            if !crate::text::str_less(self.field_layouts[k - 1].0.as_str(), self.field_layouts[k].0.as_str()) {
                return false;
            }
            k += 1;
        }
        true
    }

    /// Index of the layout stored under `owner`.
    #[verifier::loop_isolation(false)]
    pub fn find_layout(&self, owner: &str) -> (r: Option<usize>)
        requires
            self.wf(),
        ensures
            r matches Some(i) ==> layout_index(*self, owner@) == Some(i as int),
            r is None ==> layout_index(*self, owner@) is None,
    {
        let mut i: usize = 0;
        while i < self.field_layouts.len()
            invariant
                0 <= i <= self.field_layouts@.len(),
                forall|j: int| 0 <= j < i ==> (#[trigger] self.field_layouts@[j]).0@ != owner@,
            decreases self.field_layouts@.len() - i,
        {
            if crate::text::str_eq(self.field_layouts[i].0.as_str(), owner) {
                proof {
                    let k = choose|k: int|
                        0 <= k < self.field_layouts@.len() && (#[trigger] self.field_layouts@[k]).0@
                            == owner@;
                    if k != i {
                        if k < i {
                            assert(self.field_layouts@[k].0@ != owner@);
                        } else {
                            assert(self.field_layouts@[i as int].0@ != self.field_layouts@[k].0@);
                        }
                    }
                }
                return Some(i);
            }
            i += 1;
        }
        None
    }

    /// Index of the class-base entry of `class`.
    #[verifier::loop_isolation(false)]
    pub fn find_base(&self, class: &str) -> (r: Option<usize>)
        requires
            self.wf(),
        ensures
            r matches Some(i) ==> base_index(*self, class@) == Some(i as int),
            r is None ==> base_index(*self, class@) is None,
    {
        let mut i: usize = 0;
        while i < self.class_bases.len()
            invariant
                0 <= i <= self.class_bases@.len(),
                forall|j: int| 0 <= j < i ==> (#[trigger] self.class_bases@[j]).0@ != class@,
            decreases self.class_bases@.len() - i,
        {
            if crate::text::str_eq(self.class_bases[i].0.as_str(), class) {
                proof {
                    let k = choose|k: int|
                        0 <= k < self.class_bases@.len() && (#[trigger] self.class_bases@[k]).0@
                            == class@;
                    if k != i {
                        if k < i {
                            assert(self.class_bases@[k].0@ != class@);
                        } else {
                            assert(self.class_bases@[i as int].0@ != self.class_bases@[k].0@);
                        }
                    }
                }
                return Some(i);
            }
            i += 1;
        }
        None
    }

    /// Resolves an interned field spelling to its checked positional address.
    #[verifier::loop_isolation(false)]
    pub fn field_ref(&self, owner: &str, name: &str) -> (r: Option<FieldRef>)
        requires
            self.wf(),
        ensures
            r matches Some(f) ==> f.owner@ == owner@ && spec_field_ref(*self, owner@, name@) == Some(
                (f.id.0, f.slot.0),
            ),
            r is None ==> spec_field_ref(*self, owner@, name@) is None,
    {
        let l = match self.find_layout(owner) {
            Some(l) => l,
            None => return None,
        };
        let fields = &self.field_layouts[l].1.fields;
        let mut i: usize = 0;
        while i < fields.len()
            invariant
                0 <= i <= fields@.len(),
                layout_index(*self, owner@) == Some(l as int),
                l < self.field_layouts@.len(),
                *fields == self.field_layouts@[l as int].1.fields,
                forall|j: int| 0 <= j < i ==> !field_named(*self, (#[trigger] fields@[j]).id, name@),
            decreases fields@.len() - i,
        {
            let id = fields[i].id;
            if (id.0 as usize) < self.field_names.len() && crate::text::str_eq(
                self.field_names[id.0 as usize].as_str(),
                name,
            ) {
                proof {
                    assert(field_named(*self, fields@[i as int].id, name@));
                    let k = choose|k: int|
                        0 <= k < fields@.len() && field_named(*self, (#[trigger] fields@[k]).id, name@)
                            && forall|j: int| 0 <= j < k ==> !field_named(*self, fields@[j].id, name@);
                    if k < i {
                        assert(!field_named(*self, fields@[k].id, name@));
                    }
                    if i < k {
                        assert(!field_named(*self, fields@[i as int].id, name@));
                    }
                }
                return Some(FieldRef { owner: owner.to_owned(), id, slot: fields[i].slot });
            }
            i += 1;
        }
        None
    }

    /// Whether a resolved field slot has weak ownership.
    pub fn field_is_weak(&self, field: &FieldRef) -> (r: bool)
        requires
            self.wf(),
        ensures
            r == (match layout_index(*self, field.owner@) {
                Some(l) => {
                    let fields = self.field_layouts@[l].1.fields@;
                    field.slot.0 < fields.len() && fields[field.slot.0 as int].weak
                        && fields[field.slot.0 as int].id == field.id
                },
                None => false,
            }),
    {
        match self.find_layout(field.owner.as_str()) {
            Some(l) => {
                let fields = &self.field_layouts[l].1.fields;
                let slot = field.slot.0 as usize;
                slot < fields.len() && fields[slot].weak && fields[slot].id.0 == field.id.0
            },
            None => false,
        }
    }

    /// The program entry point, if the module has one.
    #[verifier::loop_isolation(false)]
    pub fn entry(&self) -> (r: Option<&Function>)
        ensures
            r matches Some(f) ==> first_function(*self, |f: Function| f.kind == FunctionKind::Entry)
                matches Some(i) && *f == self.functions@[i],
            r is None ==> first_function(*self, |f: Function| f.kind == FunctionKind::Entry) is None,
    {
        let ghost p = |f: Function| f.kind == FunctionKind::Entry;
        let mut i: usize = 0;
        while i < self.functions.len()
            invariant
                0 <= i <= self.functions@.len(),
                forall|j: int| 0 <= j < i ==> !p(#[trigger] self.functions@[j]),
            decreases self.functions@.len() - i,
        {
            if self.functions[i].kind == FunctionKind::Entry {
                proof {
                    assert(p(self.functions@[i as int]));
                    let k = choose|k: int|
                        0 <= k < self.functions@.len() && p(#[trigger] self.functions@[k])
                            && forall|j: int| 0 <= j < k ==> !p(self.functions@[j]);
                    if k < i {
                        assert(!p(self.functions@[k]));
                    }
                    if i < k {
                        assert(!p(self.functions@[i as int]));
                    }
                }
                return Some(&self.functions[i]);
            }
            i += 1;
        }
        None
    }

    /// The function of a synthesised `kind` owned by `owner`.
    #[verifier::loop_isolation(false)]
    pub fn function_of_kind(&self, kind: FunctionKind, owner: &str) -> (r: Option<&Function>)
        ensures
            r matches Some(f) ==> first_function(
                *self,
                |f: Function| is_owned_of_kind(f, kind, owner@),
            ) matches Some(i) && *f == self.functions@[i],
            r is None ==> first_function(
                *self,
                |f: Function| is_owned_of_kind(f, kind, owner@),
            ) is None,
    {
        let ghost p = |f: Function| is_owned_of_kind(f, kind, owner@);
        let mut i: usize = 0;
        while i < self.functions.len()
            invariant
                0 <= i <= self.functions@.len(),
                forall|j: int| 0 <= j < i ==> !p(#[trigger] self.functions@[j]),
            decreases self.functions@.len() - i,
        {
            let f = &self.functions[i];
            let hit = f.kind == kind && match &f.owner {
                Some(o) => crate::text::str_eq(o.as_str(), owner),
                None => false,
            };
            if hit {
                proof {
                    assert(p(self.functions@[i as int]));
                    let k = choose|k: int|
                        0 <= k < self.functions@.len() && p(#[trigger] self.functions@[k])
                            && forall|j: int| 0 <= j < k ==> !p(self.functions@[j]);
                    if k < i {
                        assert(!p(self.functions@[k]));
                    }
                    if i < k {
                        assert(!p(self.functions@[i as int]));
                    }
                }
                return Some(f);
            }
            i += 1;
        }
        None
    }

    /// The standard library (`"BNMath"`, `"BNData"`, …) that module `id`
    /// provides, if any.
    pub fn standard_library_of(&self, id: ModuleId) -> (r: Option<&'static str>)
        ensures
            r matches Some(s) ==> spec_standard_library_of(*self, id) == Some(s@),
            r is None ==> spec_standard_library_of(*self, id) is None,
    {
        proof {
            reveal_strlit("BNMath");
            reveal_strlit("BNData");
            reveal_strlit("BNLog");
            reveal_strlit("BNJson");
            reveal_strlit("BNWeb");
            reveal_strlit("BNDispatch");
            reveal_strlit("BNCrypto");
        }
        if contains_module(&self.bnmath_providers, id) {
            Some("BNMath")
        } else if contains_module(&self.bndata_providers, id) {
            Some("BNData")
        } else if contains_module(&self.bnlog_providers, id) {
            Some("BNLog")
        } else if contains_module(&self.bnjson_providers, id) {
            Some("BNJson")
        } else if contains_module(&self.bnweb_providers, id) {
            Some("BNWeb")
        } else if contains_module(&self.bndispatch_providers, id) {
            Some("BNDispatch")
        } else if contains_module(&self.bncrypto_providers, id) {
            Some("BNCrypto")
        } else {
            None
        }
    }

    /// Kind of the function named `name`, if it exists in this module.
    #[verifier::loop_isolation(false)]
    pub fn kind_of(&self, name: &str) -> (r: Option<FunctionKind>)
        ensures
            r matches Some(k) ==> first_function(*self, |f: Function| f.name@ == name@) matches Some(
                i,
            ) && k == self.functions@[i].kind,
            r is None ==> first_function(*self, |f: Function| f.name@ == name@) is None,
    {
        let ghost p = |f: Function| f.name@ == name@;
        let mut i: usize = 0;
        while i < self.functions.len()
            invariant
                0 <= i <= self.functions@.len(),
                forall|j: int| 0 <= j < i ==> !p(#[trigger] self.functions@[j]),
            decreases self.functions@.len() - i,
        {
            if crate::text::str_eq(self.functions[i].name.as_str(), name) {
                proof {
                    assert(p(self.functions@[i as int]));
                    let k = choose|k: int|
                        0 <= k < self.functions@.len() && p(#[trigger] self.functions@[k])
                            && forall|j: int| 0 <= j < k ==> !p(self.functions@[j]);
                    if k < i {
                        assert(!p(self.functions@[k]));
                    }
                    if i < k {
                        assert(!p(self.functions@[i as int]));
                    }
                }
                return Some(self.functions[i].kind);
            }
            i += 1;
        }
        None
    }
}

} // verus!
