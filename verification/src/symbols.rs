//! Names the LLVM backend gives to functions, trampolines, string globals
//! and class destructors.
use vstd::prelude::*;
use crate::model::{Function, Module};
use crate::text::{push_char, push_decimal, push_str, string_of};
use crate::types::{Type, TypeV};

verus! {

/// An ASCII letter or digit, or `_`.
pub open spec fn symbol_safe(b: u8) -> bool {
    (48 <= b <= 57) || (65 <= b <= 90) || (97 <= b <= 122) || b == 95
}

/// The lowercase hexadecimal digit of `d`.
pub open spec fn hex_digit(d: int) -> char {
    seq!['0', '1', '2', '3', '4', '5', '6', '7', '8', '9', 'a', 'b', 'c', 'd', 'e', 'f'][d]
}

/// How one byte of a name is spelled in a symbol: itself when it is safe,
/// otherwise `_` and its two lowercase hexadecimal digits.
pub open spec fn symbol_byte(b: u8) -> Seq<char> {
    if symbol_safe(b) {
        seq![b as char]
    } else {
        seq!['_', hex_digit(b as int / 16), hex_digit(b as int % 16)]
    }
}

/// The symbol spelling of a byte sequence.
pub open spec fn mangle(bytes: Seq<u8>) -> Seq<char>
    decreases bytes.len(),
{
    if bytes.len() == 0 {
        Seq::empty()
    } else {
        mangle(bytes.drop_last()) + symbol_byte(bytes.last())
    }
}

/// The LLVM symbol of a function: `main` for the entry, otherwise `bn_` and
/// the mangled UTF-8 bytes of its name.
pub open spec fn function_symbol(name: Seq<char>) -> Seq<char> {
    if name == seq!['S', 't', 'a', 'r', 't'] {
        seq!['m', 'a', 'i', 'n']
    } else {
        seq!['b', 'n', '_'] + mangle(vstd::utf8::encode_utf8(name))
    }
}

fn hex_digit_exec(d: u8) -> (c: char)
    requires
        d < 16,
    ensures
        c == hex_digit(d as int),
{
    let digits = ['0', '1', '2', '3', '4', '5', '6', '7', '8', '9', 'a', 'b', 'c', 'd', 'e', 'f'];
    assert(digits@ =~= seq!['0', '1', '2', '3', '4', '5', '6', '7', '8', '9', 'a', 'b', 'c', 'd', 'e', 'f']);
    digits[d as usize]
}

/// Appends the symbol spelling of `bytes`.
fn push_mangled(s: &mut String, bytes: &[u8])
    ensures
        final(s)@ == old(s)@ + mangle(bytes@),
{
    let ghost start = old(s)@;
    let mut i: usize = 0;
    assert(bytes@.take(0) =~= Seq::<u8>::empty());
    while i < bytes.len()
        invariant
            0 <= i <= bytes@.len(),
            s@ == start + mangle(bytes@.take(i as int)),
        decreases bytes@.len() - i,
    {
        let b = bytes[i];
        let ghost before = s@;
        if (48 <= b && b <= 57) || (65 <= b && b <= 90) || (97 <= b && b <= 122) || b == 95 {
            push_char(s, b as char);
        } else {
            push_char(s, '_');
            push_char(s, hex_digit_exec(b / 16));
            push_char(s, hex_digit_exec(b % 16));
        }
        assert(s@ =~= before + symbol_byte(b));
        assert(bytes@.take(i + 1).drop_last() =~= bytes@.take(i as int));
        assert(bytes@.take(i + 1).last() == b);
        i += 1;
    }
    assert(bytes@.take(bytes@.len() as int) =~= bytes@);
}

/// The LLVM symbol of a function.
pub fn llvm_function_symbol(name: &str) -> (r: String)
    ensures
        r@ == function_symbol(name@),
{
    let entry = ['S', 't', 'a', 'r', 't'];
    assert(entry@ =~= seq!['S', 't', 'a', 'r', 't']);
    if crate::text::str_is(name, &entry) {
        let main: Vec<char> = vec!['m', 'a', 'i', 'n'];
        assert(main@ =~= seq!['m', 'a', 'i', 'n']);
        return string_of(&main);
    }
    let mut symbol = String::new();
    push_str(&mut symbol, "bn_");
    push_mangled(&mut symbol, name.as_bytes());
    proof {
        reveal_strlit("bn_");
        assert(Seq::<char>::empty() + "bn_"@ =~= seq!['b', 'n', '_']);
    }
    symbol
}

/// The symbol of the trampoline that runs function `name` on a dispatch queue.
pub open spec fn trampoline_symbol(name: Seq<char>) -> Seq<char> {
    seq!['b', 'n', '_', 'd', 'i', 's', 'p', 'a', 't', 'c', 'h', '_', 't', 'r', 'a', 'm', 'p', 'o', 'l', 'i', 'n', 'e', '_'] + function_symbol(name)
}

pub fn dispatch_trampoline_symbol(name: &str) -> (r: String)
    ensures
        r@ == trampoline_symbol(name@),
{
    let mut symbol = String::new();
    push_str(&mut symbol, "bn_dispatch_trampoline_");
    let inner = llvm_function_symbol(name);
    push_str(&mut symbol, inner.as_str());
    proof {
        reveal_strlit("bn_dispatch_trampoline_");
        assert(Seq::<char>::empty() + "bn_dispatch_trampoline_"@ + inner@ =~= trampoline_symbol(name@));
    }
    symbol
}

/// The global holding string constant `value` of a function: `@.bn_str<n>`
/// in the entry, `@.bn_str_<symbol>_<n>` elsewhere.
pub open spec fn string_global_name(function_name: Seq<char>, value: u32) -> Seq<char> {
    if function_name == seq!['S', 't', 'a', 'r', 't'] {
        seq!['@', '.', 'b', 'n', '_', 's', 't', 'r'] + crate::text::decimal(value as nat)
    } else {
        seq!['@', '.', 'b', 'n', '_', 's', 't', 'r', '_'] + function_symbol(function_name) + seq!['_'] + crate::text::decimal(value as nat)
    }
}

pub fn string_global(function_name: &str, value: u32) -> (r: String)
    ensures
        r@ == string_global_name(function_name@, value),
{
    let entry = ['S', 't', 'a', 'r', 't'];
    assert(entry@ =~= seq!['S', 't', 'a', 'r', 't']);
    let mut s = String::new();
    if crate::text::str_is(function_name, &entry) {
        push_str(&mut s, "@.bn_str");
        push_decimal(&mut s, value as u128);
        proof {
            reveal_strlit("@.bn_str");
            assert(Seq::<char>::empty() + "@.bn_str"@ + crate::text::decimal(value as nat) =~= string_global_name(
                function_name@,
                value,
            ));
        }
    } else {
        push_str(&mut s, "@.bn_str_");
        let symbol = llvm_function_symbol(function_name);
        push_str(&mut s, symbol.as_str());
        push_char(&mut s, '_');
        push_decimal(&mut s, value as u128);
        proof {
            reveal_strlit("@.bn_str_");
            assert(Seq::<char>::empty() + "@.bn_str_"@ + symbol@ + seq!['_'] + crate::text::decimal(value as nat)
                =~= string_global_name(function_name@, value));
        }
    }
    s
}

/// The class a local or imported named type names.
pub open spec fn direct_class_name(t: TypeV) -> Option<Seq<char>> {
    match t {
        TypeV::Named(n) => Some(n),
        TypeV::ImportedNamed { module, name } => Some(imported_class(module, name)),
        _ => None,
    }
}

/// The class a type names: a local name, an imported `#<module>.<name>`, or
/// the class of a nullable `<class> OR NULL`.
pub open spec fn spec_class_name(t: TypeV) -> Option<Seq<char>> {
    match t {
        TypeV::Alternative(alts) => if alts.len() == 2 && (alts[0] is Null || alts[1] is Null) {
            if direct_class_name(alts[0]) is Some {
                direct_class_name(alts[0])
            } else {
                direct_class_name(alts[1])
            }
        } else {
            None
        },
        _ => direct_class_name(t),
    }
}

/// `#<module>.<name>`.
pub open spec fn imported_class(module: u32, name: Seq<char>) -> Seq<char> {
    seq!['#'] + crate::text::decimal(module as nat) + seq!['.'] + name
}

fn named_class(t: &Type) -> (r: Option<String>)
    ensures
        match direct_class_name(t@) {
            Some(n) => r matches Some(s) && s@ == n,
            None => r is None,
        },
{
    match t {
        Type::Named(n) => Some(n.clone()),
        Type::ImportedNamed { module, name } => {
            let mut s = String::new();
            push_char(&mut s, '#');
            push_decimal(&mut s, module.0 as u128);
            push_char(&mut s, '.');
            push_str(&mut s, name.as_str());
            assert(s@ =~= imported_class(module.0, name@));
            Some(s)
        },
        _ => None,
    }
}

/// The class a type names, if any.
pub fn class_name(t: &Type) -> (r: Option<String>)
    ensures
        match spec_class_name(t@) {
            Some(n) => r matches Some(s) && s@ == n,
            None => r is None,
        },
{
    match t {
        Type::Named(_) | Type::ImportedNamed { .. } => named_class(t),
        Type::Alternative(alts) => {
            proof {
                crate::types::lemma_types_view(alts@);
            }
            if alts.len() == 2 && (matches!(alts[0], Type::Null) || matches!(alts[1], Type::Null)) {
                match named_class(&alts[0]) {
                    Some(s) => Some(s),
                    None => named_class(&alts[1]),
                }
            } else {
                None
            }
        },
        _ => None,
    }
}

/// Some function of `m` is named `name`.
pub open spec fn has_function_named(m: Module, name: Seq<char>) -> bool {
    exists|i: int| 0 <= i < m.functions@.len() && (#[trigger] m.functions@[i]).name@ == name
}

fn has_function_named_exec(m: &Module, name: &String) -> (r: bool)
    ensures
        r == has_function_named(*m, name@),
{
    let mut i: usize = 0;
    while i < m.functions.len()
        invariant
            0 <= i <= m.functions@.len(),
            forall|j: int| 0 <= j < i ==> (#[trigger] m.functions@[j]).name@ != name@,
        decreases m.functions@.len() - i,
    {
        if crate::text::str_eq(m.functions[i].name.as_str(), name.as_str()) {
            return true;
        }
        i += 1;
    }
    false
}

/// `t` names a class: not a record, and its field initialiser exists.
pub open spec fn is_class_type(m: Module, t: TypeV) -> bool {
    match spec_class_name(t) {
        Some(n) => !crate::layout::is_struct_type(m, t) && has_function_named(m, crate::hierarchy::fields_function_name(n)),
        None => false,
    }
}

pub fn is_class_type_exec(m: &Module, t: &Type) -> (r: bool)
    ensures
        r == is_class_type(*m, t@),
{
    let name = match class_name(t) {
        Some(n) => n,
        None => return false,
    };
    if crate::layout::is_struct_type_exec(m, t) {
        return false;
    }
    let mut fields = name;
    push_str(&mut fields, ".$fields");
    proof {
        reveal_strlit(".$fields");
        assert(".$fields"@ =~= seq!['.', '$', 'f', 'i', 'e', 'l', 'd', 's']);
    }
    has_function_named_exec(m, &fields)
}

/// The destructor symbol of the class a type names, when the class has a
/// destructor.
pub open spec fn spec_destructor_symbol(m: Module, t: TypeV) -> Option<Seq<char>> {
    match spec_class_name(t) {
        Some(n) => if has_function_named(m, n + seq!['.', 'D', 'E', 'S', 'T', 'R', 'U', 'C', 'T', 'O', 'R']) {
            Some(function_symbol(n + seq!['.', 'D', 'E', 'S', 'T', 'R', 'U', 'C', 'T', 'O', 'R']))
        } else {
            None
        },
        None => None,
    }
}

pub fn destructor_symbol(m: &Module, t: &Type) -> (r: Option<String>)
    ensures
        match spec_destructor_symbol(*m, t@) {
            Some(s) => r matches Some(x) && x@ == s,
            None => r is None,
        },
{
    let name = match class_name(t) {
        Some(n) => n,
        None => return None,
    };
    let mut destructor = name;
    push_str(&mut destructor, ".DESTRUCTOR");
    proof {
        reveal_strlit(".DESTRUCTOR");
        assert(".DESTRUCTOR"@ =~= seq!['.', 'D', 'E', 'S', 'T', 'R', 'U', 'C', 'T', 'O', 'R']);
    }
    if has_function_named_exec(m, &destructor) {
        Some(llvm_function_symbol(destructor.as_str()))
    } else {
        None
    }
}

} // verus!
