//! The type rules of the IR contract: compatibility, operators, casts.
use vstd::prelude::*;
use crate::types::{Type, TypeV, PointerLength, OPEN_DIMENSION, type_view, types_view};
use crate::model::Constant;
use crate::text::{chars_of, chars_are, rfind_char};

verus! {

pub open spec fn void_name() -> Seq<char> {
    "VOID"@
}

pub open spec fn is_integer_type(t: TypeV) -> bool {
    t is Integer || t is IntegerLiteral
}

pub open spec fn is_float_type(t: TypeV) -> bool {
    t is Float || t is FloatLiteral
}

pub open spec fn is_numeric_type(t: TypeV) -> bool {
    is_integer_type(t) || is_float_type(t)
}

pub open spec fn is_boolean_type(t: TypeV) -> bool {
    t is Boolean
}

pub open spec fn is_string_type(t: TypeV) -> bool {
    t is String
}

pub open spec fn is_type_test_type(t: TypeV) -> bool {
    t is TypeName || t is ImportedTypeName
}

pub open spec fn is_void_type(t: TypeV) -> bool {
    t matches TypeV::Named(n) && n == void_name()
}

pub open spec fn is_named_value_type(t: TypeV) -> bool {
    t is Named || t is ImportedNamed
}

/// The part of a dotted name after its last `.` (the whole name if it has none).
pub open spec fn last_segment(s: Seq<char>) -> Seq<char>
    decreases s.len(),
{
    if s.len() == 0 {
        s
    } else if s.last() == '.' {
        Seq::empty()
    } else {
        last_segment(s.drop_last()).push(s.last())
    }
}

/// Two dimension lists agree when each pair is equal or one side is open.
pub open spec fn dimensions_agree(a: Seq<u64>, b: Seq<u64>) -> bool {
    a.len() == b.len() && forall|i: int|
        0 <= i < a.len() ==> a[i] == b[i] || a[i] == OPEN_DIMENSION || b[i] == OPEN_DIMENSION
}

/// The options of an alternative set (empty for any other type).
pub open spec fn options_of(t: TypeV) -> Seq<TypeV> {
    match t {
        TypeV::Alternative(options) => options,
        _ => Seq::empty(),
    }
}

/// One of the first `n` options of `expected` accepts `actual`.
pub open spec fn option_accepts(actual: TypeV, expected: TypeV, n: nat) -> bool
    decreases actual, expected, 0nat, n,
{
    match expected {
        TypeV::Alternative(options) => if n == 0 || n > options.len() {
            false
        } else {
            types_compatible(actual, options[n - 1]) || option_accepts(actual, expected, (n - 1) as nat)
        },
        _ => false,
    }
}

/// One of the first `n` options of `actual` is accepted by `expected`.
pub open spec fn accepted_option(actual: TypeV, expected: TypeV, n: nat) -> bool
    decreases actual, expected, 0nat, n,
{
    match actual {
        TypeV::Alternative(options) => if n == 0 || n > options.len() {
            false
        } else {
            types_compatible(options[n - 1], expected) || accepted_option(actual, expected, (n - 1) as nat)
        },
        _ => false,
    }
}

/// Each of the first `n` options of `actual` is accepted by some option of `expected`.
pub open spec fn each_option_accepted(actual: TypeV, expected: TypeV, n: nat) -> bool
    decreases actual, expected, 1nat, n,
{
    match actual {
        TypeV::Alternative(options) => n == 0 || (n <= options.len() && option_accepts(
            options[n - 1],
            expected,
            options_of(expected).len(),
        ) && each_option_accepted(actual, expected, (n - 1) as nat)),
        _ => n == 0,
    }
}

/// Each of the first `n` options of `expected` accepts some option of `actual`.
pub open spec fn each_option_covered(actual: TypeV, expected: TypeV, n: nat) -> bool
    decreases actual, expected, 1nat, n,
{
    match expected {
        TypeV::Alternative(options) => n == 0 || (n <= options.len() && accepted_option(
            actual,
            options[n - 1],
            options_of(actual).len(),
        ) && each_option_covered(actual, expected, (n - 1) as nat)),
        _ => n == 0,
    }
}

/// Whether a value of type `actual` may stand where `expected` is required.
pub open spec fn types_compatible(actual: TypeV, expected: TypeV) -> bool
    decreases actual, expected, 2nat, 0nat,
{
    ||| actual == expected
    ||| (actual matches TypeV::ImportedNamed { name: a, .. } && expected matches TypeV::Named(e)
        && last_segment(e) == a)
    ||| (actual matches TypeV::Named(e) && expected matches TypeV::ImportedNamed { name: a, .. }
        && last_segment(e) == a)
    ||| (actual matches TypeV::ImportedNamed { name: a, .. }
        && expected matches TypeV::ImportedNamed { name: e, .. } && a == e)
    ||| (actual is Alternative && expected is Alternative && options_of(actual).len()
        == options_of(expected).len() && each_option_accepted(
        actual,
        expected,
        options_of(actual).len(),
    ) && each_option_covered(actual, expected, options_of(expected).len()))
    ||| (actual is IntegerLiteral && expected is Integer)
    ||| (actual is FloatLiteral && expected is Float)
    ||| (actual is Pointer && (expected matches TypeV::Named(n) && n == "POINTER"@))
    ||| (actual matches TypeV::Pointer { element: ae, length: al }
        && expected matches TypeV::Pointer { element: ee, length: el } && (is_void_type(*ae)
        || is_void_type(*ee) || types_compatible(*ae, *ee)) && (al == el || el is Dynamic))
    ||| option_accepts(actual, expected, options_of(expected).len())
    ||| (actual matches TypeV::Vector { element: ae, dimensions: ad }
        && expected matches TypeV::Vector { element: ee, dimensions: ed } && types_compatible(
        *ae,
        *ee,
    ) && dimensions_agree(ad, ed))
    ||| (actual matches TypeV::Pointer { element: ae, .. }
        && expected matches TypeV::Vector { element: ee, dimensions: d } && d.len() == 1
        && is_numeric_type(*ae) && is_numeric_type(*ee))
}

/// Assignment also accepts unresolved types, any pair of named value types
/// (subtyping was checked by the frontend) and pointers whose lengths differ.
pub open spec fn assignment_types_compatible(actual: TypeV, expected: TypeV) -> bool {
    ||| actual is Unknown
    ||| expected is Unknown
    ||| types_compatible(actual, expected)
    ||| (is_named_value_type(actual) && is_named_value_type(expected))
    ||| (actual matches TypeV::Pointer { element: ae, .. }
        && expected matches TypeV::Pointer { element: ee, .. } && types_compatible(*ae, *ee))
}

/// Every type is compatible with itself, and assignments and calls accept
/// every pair of types that plain compatibility accepts.
pub proof fn lemma_compatibility_inclusions(actual: TypeV, expected: TypeV)
    ensures
        types_compatible(actual, actual),
        types_compatible(actual, expected) ==> assignment_types_compatible(actual, expected),
        types_compatible(actual, expected) ==> call_types_compatible(actual, expected),
{
}

/// Calls also accept numeric conversions and the one-vector reduction form.
pub open spec fn call_types_compatible(actual: TypeV, expected: TypeV) -> bool
    decreases actual,
{
    ||| types_compatible(actual, expected)
    ||| (is_numeric_type(actual) && is_numeric_type(expected))
    ||| (actual matches TypeV::Vector { element: e, dimensions: d } && d.len() == 1
        && is_numeric_type(*e) && is_numeric_type(expected))
    ||| (actual matches TypeV::Vector { element: ae, dimensions: ad }
        && expected matches TypeV::Vector { element: ee, dimensions: ed } && call_types_compatible(
        *ae,
        *ee,
    ) && dimensions_agree(ad, ed))
}

/// The type of one element of a vector type: the element type for a
/// one-dimensional vector, the vector of the remaining dimensions otherwise.
pub open spec fn vector_element(element: TypeV, dimensions: Seq<u64>) -> TypeV {
    if dimensions.len() > 1 {
        TypeV::Vector { element: Box::new(element), dimensions: dimensions.skip(1) }
    } else {
        element
    }
}

/// Whether indexing a value of type `object` may produce a `result`.
pub open spec fn index_result_matches(object: TypeV, result: TypeV) -> bool {
    match object {
        TypeV::Vector { element, dimensions } => types_compatible(
            vector_element(*element, dimensions),
            result,
        ),
        TypeV::Pointer { element, .. } => types_compatible(*element, result),
        TypeV::String => is_string_type(result),
        TypeV::HostArgs => is_string_type(result),
        TypeV::Unknown => true,
        _ => false,
    }
}

/// Whether a type names `name`, directly or as one of its alternatives.
pub open spec fn contains_named_type(t: TypeV, name: Seq<char>) -> bool
    decreases t, 1nat, 0nat,
{
    match t {
        TypeV::Named(a) => a == name,
        TypeV::TypeName(a) => a == name,
        TypeV::ImportedNamed { name: a, .. } => a == name,
        TypeV::ImportedTypeName { name: a, .. } => a == name,
        TypeV::Alternative(options) => some_option_named(t, name, options.len()),
        _ => false,
    }
}

/// One of the first `n` options of `t` names `name`.
pub open spec fn some_option_named(t: TypeV, name: Seq<char>, n: nat) -> bool
    decreases t, 0nat, n,
{
    match t {
        TypeV::Alternative(options) => if n == 0 || n > options.len() {
            false
        } else {
            contains_named_type(options[n - 1], name) || some_option_named(t, name, (n - 1) as nat)
        },
        _ => false,
    }
}

/// A BNDispatch synchronization handle.
pub open spec fn is_dispatch_wait_handle(t: TypeV) -> bool {
    ||| contains_named_type(t, "Ticket"@)
    ||| contains_named_type(t, "Group"@)
    ||| contains_named_type(t, "Barrier"@)
    ||| contains_named_type(t, "Semaphore"@)
    ||| contains_named_type(t, "Mutex"@)
}

/// Whether a constant's kind may carry the declared type.
pub open spec fn constant_matches_type(c: Constant, t: TypeV) -> bool {
    match c {
        Constant::Integer(_) => is_integer_type(t),
        Constant::Float(_) => is_float_type(t),
        Constant::String(_) => t is String,
        Constant::Boolean(_) => t is Boolean,
        Constant::Null => t is Null || t is Pointer || is_void_type(t),
        Constant::NotAvailable => t is NotAvailable,
        Constant::EndOfFile => t is EndOfFile,
        Constant::Function(_) => t is Function || t is Unknown,
        Constant::Type(_) => t is TypeName || t is ImportedTypeName || t is Named || t is Module
            || t is HostClock || t is HostRandom || t is HostFileSystem || t is HostNet
            || t is HostExec,
        Constant::HostConsole => t is HostConsole,
        Constant::HostArgs => t is HostArgs,
    }
}

pub open spec fn is_comparable(left: TypeV, right: TypeV) -> bool {
    types_compatible(left, right) || types_compatible(right, left) || (is_numeric_type(left)
        && is_numeric_type(right))
}

pub open spec fn is_integer_pair(left: TypeV, right: TypeV) -> bool {
    is_integer_type(left) && is_integer_type(right)
}

pub open spec fn is_numeric_pair(left: TypeV, right: TypeV) -> bool {
    is_numeric_type(left) && is_numeric_type(right)
}

/// The operand and result types each binary operator accepts.
pub open spec fn valid_binary_types(op: Seq<char>, left: TypeV, right: TypeV, result: TypeV) -> bool {
    if op == "Assign"@ || op == "NotEqual"@ {
        is_comparable(left, right) && is_boolean_type(result)
    } else if op == "Less"@ || op == "LessEqual"@ || op == "Greater"@ || op == "GreaterEqual"@ {
        is_numeric_pair(left, right) && is_boolean_type(result)
    } else if op == "AND"@ || op == "OR"@ || op == "XOR"@ {
        (is_boolean_type(left) && is_boolean_type(right) && is_boolean_type(result)) || (
        is_integer_pair(left, right) && is_integer_type(result))
    } else if op == "DIV"@ || op == "Percent"@ || op == "SHL"@ || op == "SHR"@ {
        is_integer_pair(left, right) && is_integer_type(result)
    } else if op == "Plus"@ && (is_string_type(left) || is_string_type(right)) {
        is_string_type(left) && is_string_type(right) && is_string_type(result)
    } else if op == "Plus"@ || op == "Minus"@ || op == "Star"@ || op == "Power"@ {
        is_numeric_pair(left, right) && is_numeric_type(result)
    } else if op == "Slash"@ {
        is_numeric_pair(left, right) && is_float_type(result)
    } else if op == "IS"@ {
        is_type_test_type(right) && is_boolean_type(result)
    } else {
        false
    }
}

/// The operand and result types each unary operator accepts.
pub open spec fn valid_unary_types(op: Seq<char>, operand: TypeV, result: TypeV) -> bool {
    if op == "Minus"@ {
        is_numeric_type(operand) && is_numeric_type(result)
    } else if op == "NOT"@ {
        (is_boolean_type(operand) && is_boolean_type(result)) || (is_integer_type(operand)
            && is_integer_type(result))
    } else {
        false
    }
}

/// Numbers convert to numbers and booleans; strings and the absent values
/// (`NULL`, `NA`, `EOF`) convert to booleans.
pub open spec fn valid_cast_types(source: TypeV, target: TypeV) -> bool {
    ||| (is_numeric_type(source) && (is_numeric_type(target) || is_boolean_type(target)))
    ||| (is_string_type(source) && is_boolean_type(target))
    ||| ((source is Null || source is NotAvailable || source is EndOfFile) && is_boolean_type(target))
}

// ---------------------------------------------------------------------------
// Executable checks
// ---------------------------------------------------------------------------

pub fn is_integer_type_exec(t: &Type) -> (r: bool)
    ensures
        r == is_integer_type(t@),
{
    matches!(t, Type::Integer(_) | Type::IntegerLiteral(_))
}

pub fn is_float_type_exec(t: &Type) -> (r: bool)
    ensures
        r == is_float_type(t@),
{
    matches!(t, Type::Float(_) | Type::FloatLiteral)
}

pub fn is_numeric_type_exec(t: &Type) -> (r: bool)
    ensures
        r == is_numeric_type(t@),
{
    is_integer_type_exec(t) || is_float_type_exec(t)
}

pub fn is_boolean_type_exec(t: &Type) -> (r: bool)
    ensures
        r == is_boolean_type(t@),
{
    matches!(t, Type::Boolean)
}

pub fn is_string_type_exec(t: &Type) -> (r: bool)
    ensures
        r == is_string_type(t@),
{
    matches!(t, Type::String)
}

pub fn is_type_test_type_exec(t: &Type) -> (r: bool)
    ensures
        r == is_type_test_type(t@),
{
    matches!(t, Type::TypeName(_) | Type::ImportedTypeName { .. })
}

pub fn is_named_value_type_exec(t: &Type) -> (r: bool)
    ensures
        r == is_named_value_type(t@),
{
    matches!(t, Type::Named(_) | Type::ImportedNamed { .. })
}

pub fn name_is(name: &String, lit: &[char]) -> (r: bool)
    ensures
        r == (name@ == lit@),
{
    crate::text::str_is(name.as_str(), lit)
}

pub fn is_void_type_exec(t: &Type) -> (r: bool)
    ensures
        r == is_void_type(t@),
{
    let lit = chars_of("VOID");
    assert(lit@ =~= void_name());
    match t {
        Type::Named(n) => name_is(n, &lit),
        _ => false,
    }
}

pub proof fn lemma_last_segment(s: Seq<char>, k: int)
    requires
        -1 <= k < s.len(),
        k >= 0 ==> s[k] == '.',
        forall|j: int| k < j < s.len() ==> s[j] != '.',
    ensures
        last_segment(s) == s.subrange(k + 1, s.len() as int),
    decreases s.len(),
{
    if s.len() == 0 {
    } else if s.last() == '.' {
        assert(k == s.len() - 1);
    } else {
        lemma_last_segment(s.drop_last(), k);
        assert(s.drop_last().subrange(k + 1, s.len() - 1).push(s.last()) =~= s.subrange(
            k + 1,
            s.len() as int,
        ));
    }
}

/// Whether the last dotted segment of `dotted` equals `name`.
pub fn last_segment_is(dotted: &String, name: &String) -> (r: bool)
    ensures
        r == (last_segment(dotted@) == name@),
{
    let d = chars_of(dotted.as_str());
    let n = chars_of(name.as_str());
    let start = match rfind_char(&d, 0, d.len(), '.') {
        Some(k) => {
            proof {
                lemma_last_segment(d@, k as int);
            }
            k + 1
        },
        None => {
            proof {
                lemma_last_segment(d@, -1);
            }
            0
        },
    };
    crate::text::range_is(&d, start, d.len(), n.as_slice())
}

pub fn dimensions_agree_exec(a: &Vec<u64>, b: &Vec<u64>) -> (r: bool)
    ensures
        r == dimensions_agree(a@, b@),
{
    if a.len() != b.len() {
        return false;
    }
    let mut i: usize = 0;
    while i < a.len()
        invariant
            0 <= i <= a@.len(),
            a@.len() == b@.len(),
            forall|j: int|
                0 <= j < i ==> a@[j] == b@[j] || a@[j] == OPEN_DIMENSION || b@[j] == OPEN_DIMENSION,
        decreases a@.len() - i,
    {
        if !(a[i] == b[i] || a[i] == OPEN_DIMENSION || b[i] == OPEN_DIMENSION) {
            return false;
        }
        i += 1;
    }
    true
}

/// Executable [`types_compatible`].
pub fn types_compatible_exec(actual: &Type, expected: &Type) -> (r: bool)
    ensures
        r == types_compatible(actual@, expected@),
    decreases actual, expected, 2nat, 0nat,
{
    if crate::types::type_eq(actual, expected) {
        return true;
    }
    let named_match = match (actual, expected) {
        (Type::ImportedNamed { name: a, .. }, Type::Named(e)) => last_segment_is(e, a),
        (Type::Named(e), Type::ImportedNamed { name: a, .. }) => last_segment_is(e, a),
        (Type::ImportedNamed { name: a, .. }, Type::ImportedNamed { name: e, .. }) => *a == *e,
        _ => false,
    };
    if named_match {
        return true;
    }
    if alternative_sets_compatible(actual, expected) {
        return true;
    }
    let simple = match (actual, expected) {
        (Type::IntegerLiteral(_), Type::Integer(_)) => true,
        (Type::FloatLiteral, Type::Float(_)) => true,
        (Type::Pointer { .. }, Type::Named(n)) => {
            let lit = chars_of("POINTER");
            name_is(n, &lit)
        },
        _ => false,
    };
    if simple {
        return true;
    }
    let pointers = match (actual, expected) {
        (Type::Pointer { element: ae, length: al }, Type::Pointer { element: ee, length: el }) => {
            (is_void_type_exec(ae) || is_void_type_exec(ee) || types_compatible_exec(ae, ee)) && (
            *al == *el || matches!(el, PointerLength::Dynamic))
        },
        _ => false,
    };
    if pointers {
        return true;
    }
    if option_accepts_exec(actual, expected) {
        return true;
    }
    let vectors = match (actual, expected) {
        (
            Type::Vector { element: ae, dimensions: ad },
            Type::Vector { element: ee, dimensions: ed },
        ) => types_compatible_exec(ae, ee) && dimensions_agree_exec(ad, ed),
        (Type::Pointer { element: ae, .. }, Type::Vector { element: ee, dimensions: d }) => {
            d.len() == 1 && is_numeric_type_exec(ae) && is_numeric_type_exec(ee)
        },
        _ => false,
    };
    vectors
}

/// Executable [`option_accepts`] over all options.
pub fn option_accepts_exec(actual: &Type, expected: &Type) -> (r: bool)
    ensures
        r == option_accepts(actual@, expected@, options_of(expected@).len()),
    decreases actual, expected, 0nat, 0nat,
{
    match expected {
        Type::Alternative(options) => {
            proof {
                crate::types::lemma_types_view(options@);
            }
            let ghost e = expected@;
            assert(e == TypeV::Alternative(types_view(options@)));
            let mut i: usize = options.len();
            while i > 0
                invariant
                    0 <= i <= options@.len(),
                    e == expected@,
                    *expected == Type::Alternative(*options),
                    expected->Alternative_0 == *options,
                    e == TypeV::Alternative(types_view(options@)),
                    types_view(options@).len() == options@.len(),
                    forall|k: int| 0 <= k < options@.len() ==> #[trigger] types_view(options@)[k] == type_view(options@[k]),
                    option_accepts(actual@, e, options@.len() as nat) == option_accepts(actual@, e, i as nat),
                decreases i,
            {
                proof {
                    assert(decreases_to!(*expected => *options));
                    assert(decreases_to!(*options => options@));
                    assert(decreases_to!(options@ => options@[i - 1]));
                }
                if types_compatible_exec(actual, &options[i - 1]) {
                    assert(types_view(options@)[i - 1] == type_view(options@[i - 1]));
                    return true;
                }
                i -= 1;
            }
            false
        },
        _ => false,
    }
}

/// Executable [`accepted_option`] over all options.
pub fn accepted_option_exec(actual: &Type, expected: &Type) -> (r: bool)
    ensures
        r == accepted_option(actual@, expected@, options_of(actual@).len()),
    decreases actual, expected, 0nat, 0nat,
{
    match actual {
        Type::Alternative(options) => {
            proof {
                crate::types::lemma_types_view(options@);
            }
            let ghost a = actual@;
            assert(a == TypeV::Alternative(types_view(options@)));
            let mut i: usize = options.len();
            while i > 0
                invariant
                    0 <= i <= options@.len(),
                    a == actual@,
                    *actual == Type::Alternative(*options),
                    actual->Alternative_0 == *options,
                    a == TypeV::Alternative(types_view(options@)),
                    types_view(options@).len() == options@.len(),
                    forall|k: int| 0 <= k < options@.len() ==> #[trigger] types_view(options@)[k] == type_view(options@[k]),
                    accepted_option(a, expected@, options@.len() as nat) == accepted_option(a, expected@, i as nat),
                decreases i,
            {
                proof {
                    assert(decreases_to!(*actual => *options));
                    assert(decreases_to!(*options => options@));
                    assert(decreases_to!(options@ => options@[i - 1]));
                }
                if types_compatible_exec(&options[i - 1], expected) {
                    assert(types_view(options@)[i - 1] == type_view(options@[i - 1]));
                    return true;
                }
                i -= 1;
            }
            false
        },
        _ => false,
    }
}

/// The alternative-set case of [`types_compatible`].
fn alternative_sets_compatible(actual: &Type, expected: &Type) -> (r: bool)
    ensures
        r == (actual@ is Alternative && expected@ is Alternative && options_of(actual@).len()
            == options_of(expected@).len() && each_option_accepted(
            actual@,
            expected@,
            options_of(actual@).len(),
        ) && each_option_covered(actual@, expected@, options_of(expected@).len())),
    decreases actual, expected, 1nat, 0nat,
{
    match (actual, expected) {
        (Type::Alternative(xs), Type::Alternative(ys)) => {
            proof {
                crate::types::lemma_types_view(xs@);
                crate::types::lemma_types_view(ys@);
            }
            let ghost a = actual@;
            let ghost e = expected@;
            assert(a == TypeV::Alternative(types_view(xs@)));
            assert(e == TypeV::Alternative(types_view(ys@)));
            if xs.len() != ys.len() {
                return false;
            }
            let mut i: usize = xs.len();
            while i > 0
                invariant
                    0 <= i <= xs@.len(),
                    a == actual@,
                    e == expected@,
                    *actual == Type::Alternative(*xs),
                    actual->Alternative_0 == *xs,
                    a == TypeV::Alternative(types_view(xs@)),
                    types_view(xs@).len() == xs@.len(),
                    forall|k: int| 0 <= k < xs@.len() ==> #[trigger] types_view(xs@)[k] == type_view(xs@[k]),
                    each_option_accepted(a, e, xs@.len() as nat) == each_option_accepted(a, e, i as nat),
                decreases i,
            {
                proof {
                    assert(decreases_to!(*actual => *xs));
                    assert(decreases_to!(*xs => xs@));
                    assert(decreases_to!(xs@ => xs@[i - 1]));
                }
                if !option_accepts_exec(&xs[i - 1], expected) {
                    assert(types_view(xs@)[i - 1] == type_view(xs@[i - 1]));
                    return false;
                }
                i -= 1;
            }
            let mut j: usize = ys.len();
            while j > 0
                invariant
                    0 <= j <= ys@.len(),
                    a == actual@,
                    e == expected@,
                    *expected == Type::Alternative(*ys),
                    expected->Alternative_0 == *ys,
                    e == TypeV::Alternative(types_view(ys@)),
                    types_view(ys@).len() == ys@.len(),
                    forall|k: int| 0 <= k < ys@.len() ==> #[trigger] types_view(ys@)[k] == type_view(ys@[k]),
                    each_option_covered(a, e, ys@.len() as nat) == each_option_covered(a, e, j as nat),
                decreases j,
            {
                proof {
                    assert(decreases_to!(*expected => *ys));
                    assert(decreases_to!(*ys => ys@));
                    assert(decreases_to!(ys@ => ys@[j - 1]));
                }
                if !accepted_option_exec(actual, &ys[j - 1]) {
                    assert(types_view(ys@)[j - 1] == type_view(ys@[j - 1]));
                    return false;
                }
                j -= 1;
            }
            true
        },
        _ => false,
    }
}

/// Executable [`assignment_types_compatible`].
pub fn assignment_types_compatible_exec(actual: &Type, expected: &Type) -> (r: bool)
    ensures
        r == assignment_types_compatible(actual@, expected@),
{
    if matches!(actual, Type::Unknown) || matches!(expected, Type::Unknown) {
        return true;
    }
    if types_compatible_exec(actual, expected) {
        return true;
    }
    if is_named_value_type_exec(actual) && is_named_value_type_exec(expected) {
        return true;
    }
    match (actual, expected) {
        (Type::Pointer { element: ae, .. }, Type::Pointer { element: ee, .. }) => types_compatible_exec(ae, ee),
        _ => false,
    }
}

/// Executable [`call_types_compatible`].
pub fn call_types_compatible_exec(actual: &Type, expected: &Type) -> (r: bool)
    ensures
        r == call_types_compatible(actual@, expected@),
    decreases actual,
{
    if types_compatible_exec(actual, expected) {
        return true;
    }
    if is_numeric_type_exec(actual) && is_numeric_type_exec(expected) {
        return true;
    }
    match actual {
        Type::Vector { element, dimensions } => {
            if dimensions.len() == 1 && is_numeric_type_exec(element) && is_numeric_type_exec(expected) {
                return true;
            }
        },
        _ => {},
    }
    match (actual, expected) {
        (Type::Vector { element: ae, dimensions: ad }, Type::Vector { element: ee, dimensions: ed }) => {
            call_types_compatible_exec(ae, ee) && dimensions_agree_exec(ad, ed)
        },
        _ => false,
    }
}

/// The type of one element of a vector type, built from its parts.
pub fn vector_element_exec(element: &Type, dimensions: &Vec<u64>) -> (r: Type)
    ensures
        r@ == vector_element(element@, dimensions@),
{
    if dimensions.len() > 1 {
        let rest = crate::types::copy_u64s(dimensions.as_slice().split_at(1).1);
        assert(rest@ =~= dimensions@.skip(1));
        Type::Vector { element: Box::new(crate::types::copy_type(element)), dimensions: rest }
    } else {
        crate::types::copy_type(element)
    }
}

/// Executable [`index_result_matches`].
pub fn index_result_matches_exec(object: &Type, result: &Type) -> (r: bool)
    ensures
        r == index_result_matches(object@, result@),
{
    match object {
        Type::Vector { element, dimensions } => {
            let expected = vector_element_exec(element, dimensions);
            types_compatible_exec(&expected, result)
        },
        Type::Pointer { element, .. } => types_compatible_exec(element, result),
        Type::String | Type::HostArgs => is_string_type_exec(result),
        Type::Unknown => true,
        _ => false,
    }
}

/// Executable [`contains_named_type`].
pub fn contains_named_type_exec(t: &Type, name: &[char]) -> (r: bool)
    ensures
        r == contains_named_type(t@, name@),
    decreases t,
{
    match t {
        Type::Named(a) | Type::TypeName(a) => name_is(a, name),
        Type::ImportedNamed { name: a, .. } | Type::ImportedTypeName { name: a, .. } => name_is(a, name),
        Type::Alternative(options) => {
            proof {
                crate::types::lemma_types_view(options@);
            }
            let ghost tv = t@;
            assert(tv == TypeV::Alternative(types_view(options@)));
            let mut i: usize = options.len();
            while i > 0
                invariant
                    0 <= i <= options@.len(),
                    tv == t@,
                    *t == Type::Alternative(*options),
                    t->Alternative_0 == *options,
                    tv == TypeV::Alternative(types_view(options@)),
                    types_view(options@).len() == options@.len(),
                    forall|k: int| 0 <= k < options@.len() ==> #[trigger] types_view(options@)[k] == type_view(options@[k]),
                    some_option_named(tv, name@, options@.len() as nat) == some_option_named(tv, name@, i as nat),
                decreases i,
            {
                proof {
                    assert(decreases_to!(*t => *options));
                    assert(decreases_to!(*options => options@));
                    assert(decreases_to!(options@ => options@[i - 1]));
                }
                if contains_named_type_exec(&options[i - 1], name) {
                    assert(types_view(options@)[i - 1] == type_view(options@[i - 1]));
                    return true;
                }
                i -= 1;
            }
            false
        },
        _ => false,
    }
}

/// Executable [`is_dispatch_wait_handle`].
pub fn is_dispatch_wait_handle_exec(t: &Type) -> (r: bool)
    ensures
        r == is_dispatch_wait_handle(t@),
{
    let ticket = chars_of("Ticket");
    let group = chars_of("Group");
    let barrier = chars_of("Barrier");
    let semaphore = chars_of("Semaphore");
    let mutex = chars_of("Mutex");
    contains_named_type_exec(t, &ticket) || contains_named_type_exec(t, &group)
        || contains_named_type_exec(t, &barrier) || contains_named_type_exec(t, &semaphore)
        || contains_named_type_exec(t, &mutex)
}

/// Executable [`constant_matches_type`].
pub fn constant_matches_type_exec(c: &Constant, t: &Type) -> (r: bool)
    ensures
        r == constant_matches_type(*c, t@),
{
    match c {
        Constant::Integer(_) => is_integer_type_exec(t),
        Constant::Float(_) => is_float_type_exec(t),
        Constant::String(_) => matches!(t, Type::String),
        Constant::Boolean(_) => matches!(t, Type::Boolean),
        Constant::Null => matches!(t, Type::Null | Type::Pointer { .. }) || is_void_type_exec(t),
        Constant::NotAvailable => matches!(t, Type::NotAvailable),
        Constant::EndOfFile => matches!(t, Type::EndOfFile),
        Constant::Function(_) => matches!(t, Type::Function { .. } | Type::Unknown),
        Constant::Type(_) => matches!(
            t,
            Type::TypeName(_) | Type::ImportedTypeName { .. } | Type::Named(_) | Type::Module(_)
                | Type::HostClock | Type::HostRandom | Type::HostFileSystem | Type::HostNet
                | Type::HostExec
        ),
        Constant::HostConsole => matches!(t, Type::HostConsole),
        Constant::HostArgs => matches!(t, Type::HostArgs),
    }
}

pub fn is_comparable_exec(left: &Type, right: &Type) -> (r: bool)
    ensures
        r == is_comparable(left@, right@),
{
    types_compatible_exec(left, right) || types_compatible_exec(right, left) || (
    is_numeric_type_exec(left) && is_numeric_type_exec(right))
}

/// Executable [`valid_binary_types`].
pub fn valid_binary_types_exec(op: &String, left: &Type, right: &Type, result: &Type) -> (r: bool)
    ensures
        r == valid_binary_types(op@, left@, right@, result@),
{
    let o = chars_of(op.as_str());
    let assign = chars_of("Assign");
    let not_equal = chars_of("NotEqual");
    let less = chars_of("Less");
    let less_equal = chars_of("LessEqual");
    let greater = chars_of("Greater");
    let greater_equal = chars_of("GreaterEqual");
    let and = chars_of("AND");
    let or = chars_of("OR");
    let xor = chars_of("XOR");
    let div = chars_of("DIV");
    let percent = chars_of("Percent");
    let shl = chars_of("SHL");
    let shr = chars_of("SHR");
    let plus = chars_of("Plus");
    let minus = chars_of("Minus");
    let star = chars_of("Star");
    let power = chars_of("Power");
    let slash = chars_of("Slash");
    let is = chars_of("IS");
    if chars_are(&o, &assign) || chars_are(&o, &not_equal) {
        is_comparable_exec(left, right) && is_boolean_type_exec(result)
    } else if chars_are(&o, &less) || chars_are(&o, &less_equal) || chars_are(&o, &greater)
        || chars_are(&o, &greater_equal) {
        is_numeric_type_exec(left) && is_numeric_type_exec(right) && is_boolean_type_exec(result)
    } else if chars_are(&o, &and) || chars_are(&o, &or) || chars_are(&o, &xor) {
        (is_boolean_type_exec(left) && is_boolean_type_exec(right) && is_boolean_type_exec(result))
            || (is_integer_type_exec(left) && is_integer_type_exec(right) && is_integer_type_exec(
            result,
        ))
    } else if chars_are(&o, &div) || chars_are(&o, &percent) || chars_are(&o, &shl) || chars_are(
        &o,
        &shr,
    ) {
        is_integer_type_exec(left) && is_integer_type_exec(right) && is_integer_type_exec(result)
    } else if chars_are(&o, &plus) && (is_string_type_exec(left) || is_string_type_exec(right)) {
        is_string_type_exec(left) && is_string_type_exec(right) && is_string_type_exec(result)
    } else if chars_are(&o, &plus) || chars_are(&o, &minus) || chars_are(&o, &star) || chars_are(
        &o,
        &power,
    ) {
        is_numeric_type_exec(left) && is_numeric_type_exec(right) && is_numeric_type_exec(result)
    } else if chars_are(&o, &slash) {
        is_numeric_type_exec(left) && is_numeric_type_exec(right) && is_float_type_exec(result)
    } else if chars_are(&o, &is) {
        is_type_test_type_exec(right) && is_boolean_type_exec(result)
    } else {
        false
    }
}

/// Executable [`valid_unary_types`].
pub fn valid_unary_types_exec(op: &String, operand: &Type, result: &Type) -> (r: bool)
    ensures
        r == valid_unary_types(op@, operand@, result@),
{
    let o = chars_of(op.as_str());
    let minus = chars_of("Minus");
    let not = chars_of("NOT");
    if chars_are(&o, &minus) {
        is_numeric_type_exec(operand) && is_numeric_type_exec(result)
    } else if chars_are(&o, &not) {
        (is_boolean_type_exec(operand) && is_boolean_type_exec(result)) || (is_integer_type_exec(
            operand,
        ) && is_integer_type_exec(result))
    } else {
        false
    }
}

/// Executable [`valid_cast_types`].
pub fn valid_cast_types_exec(source: &Type, target: &Type) -> (r: bool)
    ensures
        r == valid_cast_types(source@, target@),
{
    (is_numeric_type_exec(source) && (is_numeric_type_exec(target) || is_boolean_type_exec(target)))
        || (is_string_type_exec(source) && is_boolean_type_exec(target)) || (matches!(
        source,
        Type::Null | Type::NotAvailable | Type::EndOfFile
    ) && is_boolean_type_exec(target))
}

/// An ordered comparison (`Less`, `LessEqual`, `Greater`, `GreaterEqual`)
/// is well typed exactly when both operands are numbers, integer or float,
/// typed or literal, and the result is `BOOLEAN`.
pub proof fn lemma_ordered_comparisons_take_numbers(op: Seq<char>, left: TypeV, right: TypeV, result: TypeV)
    requires
        op == "Less"@ || op == "LessEqual"@ || op == "Greater"@ || op == "GreaterEqual"@,
    ensures
        valid_binary_types(op, left, right, result) <==> ((left is Integer || left is IntegerLiteral
            || left is Float || left is FloatLiteral) && (right is Integer || right is IntegerLiteral
            || right is Float || right is FloatLiteral) && result == TypeV::Boolean),
{
    reveal_strlit("Assign");
    reveal_strlit("NotEqual");
    reveal_strlit("Less");
    reveal_strlit("LessEqual");
    reveal_strlit("Greater");
    reveal_strlit("GreaterEqual");
    assert("Assign"@.len() == 6 && "NotEqual"@.len() == 8);
    assert("Less"@.len() == 4 && "LessEqual"@.len() == 9 && "Greater"@.len() == 7 && "GreaterEqual"@.len() == 12);
}

pub open spec fn integer_variant(t: TypeV) -> bool {
    t is Integer || t is IntegerLiteral
}

pub open spec fn number_variant(t: TypeV) -> bool {
    t is Integer || t is IntegerLiteral || t is Float || t is FloatLiteral
}

/// The arithmetic operators: integer division, remainder and shifts take and
/// give integers; `/` takes numbers and gives a float; `-`, `*` and `^` take
/// and give numbers; `AND`, `OR` and `XOR` work on booleans or bitwise on
/// integers.
pub proof fn lemma_arithmetic_operator_types(op: Seq<char>, left: TypeV, right: TypeV, result: TypeV)
    ensures
        (op == "DIV"@ || op == "Percent"@ || op == "SHL"@ || op == "SHR"@) ==> (valid_binary_types(
            op,
            left,
            right,
            result,
        ) <==> integer_variant(left) && integer_variant(right) && integer_variant(result)),
        op == "Slash"@ ==> (valid_binary_types(op, left, right, result) <==> number_variant(left)
            && number_variant(right) && (result is Float || result is FloatLiteral)),
        (op == "Minus"@ || op == "Star"@ || op == "Power"@) ==> (valid_binary_types(op, left, right, result)
            <==> number_variant(left) && number_variant(right) && number_variant(result)),
        (op == "AND"@ || op == "OR"@ || op == "XOR"@) ==> (valid_binary_types(op, left, right, result) <==> (
        left == TypeV::Boolean && right == TypeV::Boolean && result == TypeV::Boolean) || (integer_variant(left)
            && integer_variant(right) && integer_variant(result))),
{
    reveal_strlit("Assign");
    assert("Assign"@.len() == 6 && "Assign"@[0] == 'A');
    reveal_strlit("NotEqual");
    assert("NotEqual"@.len() == 8 && "NotEqual"@[0] == 'N');
    reveal_strlit("Less");
    assert("Less"@.len() == 4 && "Less"@[0] == 'L');
    reveal_strlit("LessEqual");
    assert("LessEqual"@.len() == 9 && "LessEqual"@[0] == 'L');
    reveal_strlit("Greater");
    assert("Greater"@.len() == 7 && "Greater"@[0] == 'G');
    reveal_strlit("GreaterEqual");
    assert("GreaterEqual"@.len() == 12 && "GreaterEqual"@[0] == 'G');
    reveal_strlit("AND");
    assert("AND"@.len() == 3 && "AND"@[0] == 'A');
    reveal_strlit("OR");
    assert("OR"@.len() == 2 && "OR"@[0] == 'O');
    reveal_strlit("XOR");
    assert("XOR"@.len() == 3 && "XOR"@[0] == 'X');
    reveal_strlit("DIV");
    assert("DIV"@.len() == 3 && "DIV"@[0] == 'D');
    reveal_strlit("Percent");
    assert("Percent"@.len() == 7 && "Percent"@[0] == 'P');
    reveal_strlit("SHL");
    assert("SHL"@.len() == 3 && "SHL"@[0] == 'S');
    reveal_strlit("SHR");
    assert("SHR"@.len() == 3 && "SHR"@[0] == 'S');
    reveal_strlit("Plus");
    assert("Plus"@.len() == 4 && "Plus"@[0] == 'P');
    reveal_strlit("Minus");
    assert("Minus"@.len() == 5 && "Minus"@[0] == 'M');
    reveal_strlit("Star");
    assert("Star"@.len() == 4 && "Star"@[0] == 'S');
    reveal_strlit("Power");
    assert("Power"@.len() == 5 && "Power"@[0] == 'P');
    reveal_strlit("Slash");
    assert("Slash"@.len() == 5 && "Slash"@[0] == 'S');
    reveal_strlit("IS");
    assert("IS"@.len() == 2 && "IS"@[0] == 'I');
}

} // verus!
