//! Language types as they travel through the IR, with their mathematical model.
use vstd::prelude::*;

verus! {

/// Identity of an imported module namespace (`#<id>.<Name>`).
#[derive(Clone, Copy, Debug, PartialEq, Eq, Structural)]
pub struct ModuleId(pub u32);

#[derive(Clone, Copy, Debug, PartialEq, Eq, Structural)]
pub enum IntegerType {
    Byte,
    Int8,
    Int16,
    Int32,
    Int64,
    UInt16,
    UInt32,
    UInt64,
}

#[derive(Clone, Copy, Debug, PartialEq, Eq, Structural)]
pub enum FloatType {
    Float32,
    Float64,
}

#[derive(Clone, Copy, Debug, PartialEq, Eq, Structural)]
pub enum PointerLength {
    One,
    Fixed(u64),
    Dynamic,
}

/// Dimension marker of an open (`[]`) vector dimension.
pub const OPEN_DIMENSION: u64 = 0xffff_ffff_ffff_ffff;

#[derive(Debug)]
pub enum Type {
    Unknown,
    System,
    Null,
    NotAvailable,
    EndOfFile,
    Boolean,
    String,
    Integer(IntegerType),
    IntegerLiteral(i128),
    Float(FloatType),
    FloatLiteral,
    Named(String),
    TypeName(String),
    ImportedNamed { module: ModuleId, name: String },
    ImportedTypeName { module: ModuleId, name: String },
    Module(ModuleId),
    HostClock,
    HostRandom,
    HostConsole,
    HostFileSystem,
    HostNet,
    HostExec,
    HostArgs,
    Alternative(Vec<Type>),
    Function { parameters: Vec<Type>, return_type: Box<Type> },
    Vector { element: Box<Type>, dimensions: Vec<u64> },
    Pointer { element: Box<Type>, length: PointerLength },
}

/// Mathematical model of [`Type`]: names are character sequences and nested
/// types are sequences of models, so `==` is structural equality.
pub ghost enum TypeV {
    Unknown,
    System,
    Null,
    NotAvailable,
    EndOfFile,
    Boolean,
    String,
    Integer(IntegerType),
    IntegerLiteral(i128),
    Float(FloatType),
    FloatLiteral,
    Named(Seq<char>),
    TypeName(Seq<char>),
    ImportedNamed { module: u32, name: Seq<char> },
    ImportedTypeName { module: u32, name: Seq<char> },
    Module(u32),
    HostClock,
    HostRandom,
    HostConsole,
    HostFileSystem,
    HostNet,
    HostExec,
    HostArgs,
    Alternative(Seq<TypeV>),
    Function { parameters: Seq<TypeV>, return_type: Box<TypeV> },
    Vector { element: Box<TypeV>, dimensions: Seq<u64> },
    Pointer { element: Box<TypeV>, length: PointerLength },
}

pub open spec fn type_view(t: Type) -> TypeV
    decreases t, 1nat,
{
    match t {
        Type::Unknown => TypeV::Unknown,
        Type::System => TypeV::System,
        Type::Null => TypeV::Null,
        Type::NotAvailable => TypeV::NotAvailable,
        Type::EndOfFile => TypeV::EndOfFile,
        Type::Boolean => TypeV::Boolean,
        Type::String => TypeV::String,
        Type::Integer(k) => TypeV::Integer(k),
        Type::IntegerLiteral(v) => TypeV::IntegerLiteral(v),
        Type::Float(k) => TypeV::Float(k),
        Type::FloatLiteral => TypeV::FloatLiteral,
        Type::Named(n) => TypeV::Named(n@),
        Type::TypeName(n) => TypeV::TypeName(n@),
        Type::ImportedNamed { module, name } => TypeV::ImportedNamed { module: module.0, name: name@ },
        Type::ImportedTypeName { module, name } => TypeV::ImportedTypeName {
            module: module.0,
            name: name@,
        },
        Type::Module(id) => TypeV::Module(id.0),
        Type::HostClock => TypeV::HostClock,
        Type::HostRandom => TypeV::HostRandom,
        Type::HostConsole => TypeV::HostConsole,
        Type::HostFileSystem => TypeV::HostFileSystem,
        Type::HostNet => TypeV::HostNet,
        Type::HostExec => TypeV::HostExec,
        Type::HostArgs => TypeV::HostArgs,
        Type::Alternative(options) => TypeV::Alternative(types_view(options@)),
        Type::Function { parameters, return_type } => TypeV::Function {
            parameters: types_view(parameters@),
            return_type: Box::new(type_view(*return_type)),
        },
        Type::Vector { element, dimensions } => TypeV::Vector {
            element: Box::new(type_view(*element)),
            dimensions: dimensions@,
        },
        Type::Pointer { element, length } => TypeV::Pointer {
            element: Box::new(type_view(*element)),
            length,
        },
    }
}

pub open spec fn types_view(ts: Seq<Type>) -> Seq<TypeV>
    decreases ts, 0nat,
{
    if ts.len() == 0 {
        Seq::empty()
    } else {
        types_view(ts.drop_last()).push(type_view(ts.last()))
    }
}

impl View for Type {
    type V = TypeV;

    open spec fn view(&self) -> TypeV {
        type_view(*self)
    }
}

pub proof fn lemma_types_view(ts: Seq<Type>)
    ensures
        types_view(ts).len() == ts.len(),
        forall|i: int| 0 <= i < ts.len() ==> #[trigger] types_view(ts)[i] == type_view(ts[i]),
    decreases ts.len(),
{
    if ts.len() > 0 {
        lemma_types_view(ts.drop_last());
    }
}

/// Structural equality of two types.
#[verifier::loop_isolation(false)]
pub fn type_eq(a: &Type, b: &Type) -> (r: bool)
    ensures
        r == (a@ == b@),
    decreases a,
{
    match (a, b) {
        (Type::Unknown, Type::Unknown) => true,
        (Type::System, Type::System) => true,
        (Type::Null, Type::Null) => true,
        (Type::NotAvailable, Type::NotAvailable) => true,
        (Type::EndOfFile, Type::EndOfFile) => true,
        (Type::Boolean, Type::Boolean) => true,
        (Type::String, Type::String) => true,
        (Type::Integer(x), Type::Integer(y)) => *x == *y,
        (Type::IntegerLiteral(x), Type::IntegerLiteral(y)) => *x == *y,
        (Type::Float(x), Type::Float(y)) => *x == *y,
        (Type::FloatLiteral, Type::FloatLiteral) => true,
        (Type::Named(x), Type::Named(y)) => *x == *y,
        (Type::TypeName(x), Type::TypeName(y)) => *x == *y,
        (
            Type::ImportedNamed { module: m1, name: n1 },
            Type::ImportedNamed { module: m2, name: n2 },
        ) => m1.0 == m2.0 && *n1 == *n2,
        (
            Type::ImportedTypeName { module: m1, name: n1 },
            Type::ImportedTypeName { module: m2, name: n2 },
        ) => m1.0 == m2.0 && *n1 == *n2,
        (Type::Module(x), Type::Module(y)) => x.0 == y.0,
        (Type::HostClock, Type::HostClock) => true,
        (Type::HostRandom, Type::HostRandom) => true,
        (Type::HostConsole, Type::HostConsole) => true,
        (Type::HostFileSystem, Type::HostFileSystem) => true,
        (Type::HostNet, Type::HostNet) => true,
        (Type::HostExec, Type::HostExec) => true,
        (Type::HostArgs, Type::HostArgs) => true,
        (Type::Alternative(xs), Type::Alternative(ys)) => types_eq(xs, ys),
        (
            Type::Function { parameters: p1, return_type: r1 },
            Type::Function { parameters: p2, return_type: r2 },
        ) => {
            proof {
                assert(decreases_to!(*a => *p1));
            }
            types_eq(p1, p2) && type_eq(r1, r2)
        },
        (
            Type::Vector { element: e1, dimensions: d1 },
            Type::Vector { element: e2, dimensions: d2 },
        ) => type_eq(e1, e2) && u64_seq_eq(d1, d2),
        (
            Type::Pointer { element: e1, length: l1 },
            Type::Pointer { element: e2, length: l2 },
        ) => *l1 == *l2 && type_eq(e1, e2),
        _ => false,
    }
}

/// Elementwise structural equality of two type lists.
pub fn types_eq(xs: &Vec<Type>, ys: &Vec<Type>) -> (r: bool)
    ensures
        r == (types_view(xs@) == types_view(ys@)),
    decreases xs, 0nat,
{
    proof {
        lemma_types_view(xs@);
        lemma_types_view(ys@);
    }
    if xs.len() != ys.len() {
        return false;
    }
    let mut i: usize = 0;
    while i < xs.len()
        invariant
            0 <= i <= xs@.len(),
            xs@.len() == ys@.len(),
            types_view(xs@).len() == xs@.len(),
            types_view(ys@).len() == ys@.len(),
            forall|j: int| 0 <= j < xs@.len() ==> #[trigger] types_view(xs@)[j] == type_view(xs@[j]),
            forall|j: int| 0 <= j < ys@.len() ==> #[trigger] types_view(ys@)[j] == type_view(ys@[j]),
            forall|j: int| 0 <= j < i ==> type_view(#[trigger] xs@[j]) == type_view(ys@[j]),
        decreases xs@.len() - i,
    {
        proof {
            assert(decreases_to!(*xs => xs@));
            assert(decreases_to!(xs@ => xs@[i as int]));
        }
        if !type_eq(&xs[i], &ys[i]) {
            assert(types_view(xs@)[i as int] != types_view(ys@)[i as int]);
            return false;
        }
        i += 1;
    }
    assert(types_view(xs@) =~= types_view(ys@));
    true
}

pub fn u64_seq_eq(xs: &Vec<u64>, ys: &Vec<u64>) -> (r: bool)
    ensures
        r == (xs@ == ys@),
{
    if xs.len() != ys.len() {
        return false;
    }
    let mut i: usize = 0;
    while i < xs.len()
        invariant
            0 <= i <= xs@.len(),
            xs@.len() == ys@.len(),
            forall|j: int| 0 <= j < i ==> xs@[j] == ys@[j],
        decreases xs@.len() - i,
    {
        if xs[i] != ys[i] {
            assert(xs@[i as int] != ys@[i as int]);
            return false;
        }
        i += 1;
    }
    assert(xs@ =~= ys@);
    true
}

pub fn copy_u64s(xs: &[u64]) -> (r: Vec<u64>)
    ensures
        r@ == xs@,
{
    let mut r: Vec<u64> = Vec::new();
    let mut i: usize = 0;
    while i < xs.len()
        invariant
            0 <= i <= xs@.len(),
            r@ == xs@.take(i as int),
        decreases xs@.len() - i,
    {
        r.push(xs[i]);
        i += 1;
        assert(r@ =~= xs@.take(i as int));
    }
    assert(xs@.take(xs@.len() as int) =~= xs@);
    r
}

/// Deep copy of a type, preserving its model.
pub fn copy_type(t: &Type) -> (r: Type)
    ensures
        r@ == t@,
    decreases t,
{
    match t {
        Type::Unknown => Type::Unknown,
        Type::System => Type::System,
        Type::Null => Type::Null,
        Type::NotAvailable => Type::NotAvailable,
        Type::EndOfFile => Type::EndOfFile,
        Type::Boolean => Type::Boolean,
        Type::String => Type::String,
        Type::Integer(k) => Type::Integer(*k),
        Type::IntegerLiteral(v) => Type::IntegerLiteral(*v),
        Type::Float(k) => Type::Float(*k),
        Type::FloatLiteral => Type::FloatLiteral,
        Type::Named(n) => Type::Named(n.clone()),
        Type::TypeName(n) => Type::TypeName(n.clone()),
        Type::ImportedNamed { module, name } => Type::ImportedNamed {
            module: *module,
            name: name.clone(),
        },
        Type::ImportedTypeName { module, name } => Type::ImportedTypeName {
            module: *module,
            name: name.clone(),
        },
        Type::Module(id) => Type::Module(*id),
        Type::HostClock => Type::HostClock,
        Type::HostRandom => Type::HostRandom,
        Type::HostConsole => Type::HostConsole,
        Type::HostFileSystem => Type::HostFileSystem,
        Type::HostNet => Type::HostNet,
        Type::HostExec => Type::HostExec,
        Type::HostArgs => Type::HostArgs,
        Type::Alternative(options) => Type::Alternative(copy_types(options)),
        Type::Function { parameters, return_type } => {
            proof {
                assert(decreases_to!(*t => *parameters));
            }
            let parameters = copy_types(parameters);
            Type::Function { parameters, return_type: Box::new(copy_type(return_type)) }
        },
        Type::Vector { element, dimensions } => Type::Vector {
            element: Box::new(copy_type(element)),
            dimensions: copy_u64s(dimensions.as_slice()),
        },
        Type::Pointer { element, length } => Type::Pointer {
            element: Box::new(copy_type(element)),
            length: *length,
        },
    }
}

pub fn copy_types(xs: &Vec<Type>) -> (r: Vec<Type>)
    ensures
        types_view(r@) == types_view(xs@),
    decreases xs, 0nat,
{
    let mut r: Vec<Type> = Vec::new();
    let mut i: usize = 0;
    proof {
        lemma_types_view(xs@);
    }
    while i < xs.len()
        invariant
            0 <= i <= xs@.len(),
            types_view(r@) == types_view(xs@.take(i as int)),
        decreases xs@.len() - i,
    {
        proof {
            assert(decreases_to!(*xs => xs@));
            assert(decreases_to!(xs@ => xs@[i as int]));
        }
        let c = copy_type(&xs[i]);
        let ghost before = r@;
        r.push(c);
        proof {
            assert(r@.drop_last() =~= before);
            assert(xs@.take(i + 1).drop_last() =~= xs@.take(i as int));
        }
        i += 1;
    }
    assert(xs@.take(xs@.len() as int) =~= xs@);
    r
}

} // verus!
