//! The function-name protocol of the IR.
//!
//! What a lowered function is lives in `Function::kind` / `owner`; this
//! classifier stays load-bearing for callees with no body in the module
//! (intrinsics and provider-backed stubs), which backends classify by name.
use vstd::prelude::*;
use crate::model::{Function, FunctionKind, Module, first_function};
use crate::text::{chars_of, find_char, range_is, string_of};

verus! {

/// What a function name says about the function.
#[derive(Clone, Copy, Debug, PartialEq, Eq, Structural)]
pub enum EmittedNameKind {
    /// The program entry point.
    Entry,
    /// `<Class>.CONSTRUCTOR` — the class constructor body.
    Constructor,
    /// `<Class>.DESTRUCTOR` — the class destructor body.
    Destructor,
    /// `<Class>.$fields` — field-initialiser prologue run by `NEW`.
    FieldInit,
    /// `<Class>.$init` — construction helper (allocate + fields + constructor).
    Init,
    /// `<Struct>.$default` — value-type default constructor.
    Default,
    /// `<Class>.<Method>` or `<Module>.<Function>` — a user function or method.
    User,
}

pub open spec fn entry_name() -> Seq<char> {
    seq!['S', 't', 'a', 'r', 't']
}

pub open spec fn super_prefix() -> Seq<char> {
    seq!['@', 's', 'u', 'p', 'e', 'r', ':']
}

pub open spec fn for_condition_name() -> Seq<char> {
    seq!['$', 'f', 'o', 'r', '_', 'c', 'o', 'n', 'd', 'i', 't', 'i', 'o', 'n']
}

/// The synthesised kind that a member suffix names, if any.
#[verifier::opaque]
pub open spec fn synthesised_suffix(member: Seq<char>) -> Option<EmittedNameKind> {
    if member == seq!['C', 'O', 'N', 'S', 'T', 'R', 'U', 'C', 'T', 'O', 'R'] {
        Some(EmittedNameKind::Constructor)
    } else if member == seq!['D', 'E', 'S', 'T', 'R', 'U', 'C', 'T', 'O', 'R'] {
        Some(EmittedNameKind::Destructor)
    } else if member == seq!['$', 'f', 'i', 'e', 'l', 'd', 's'] {
        Some(EmittedNameKind::FieldInit)
    } else if member == seq!['$', 'i', 'n', 'i', 't'] {
        Some(EmittedNameKind::Init)
    } else if member == seq!['$', 'd', 'e', 'f', 'a', 'u', 'l', 't'] {
        Some(EmittedNameKind::Default)
    } else {
        None
    }
}

pub open spec fn is_ascii_alpha(c: char) -> bool {
    ('a' <= c && c <= 'z') || ('A' <= c && c <= 'Z')
}

pub open spec fn is_ascii_digit(c: char) -> bool {
    '0' <= c && c <= '9'
}

/// An ASCII identifier: a letter or `_`, then letters, digits or `_`.
#[verifier::opaque]
pub open spec fn is_identifier(s: Seq<char>) -> bool {
    &&& s.len() > 0
    &&& (is_ascii_alpha(s[0]) || s[0] == '_')
    &&& forall|i: int| 1 <= i < s.len() ==> is_ascii_alpha(#[trigger] s[i]) || is_ascii_digit(s[i])
        || s[i] == '_'
}

#[verifier::opaque]
pub open spec fn all_digits(s: Seq<char>) -> bool {
    forall|i: int| 0 <= i < s.len() ==> is_ascii_digit(#[trigger] s[i])
}

pub open spec fn has_char(s: Seq<char>, c: char) -> bool {
    exists|i: int| 0 <= i < s.len() && s[i] == c
}

/// `s` split around its first `c`: the part before and the part after.
#[verifier::opaque]
pub open spec fn split_first(s: Seq<char>, c: char) -> Option<(Seq<char>, Seq<char>)> {
    if has_char(s, c) {
        let i = choose|i: int| 0 <= i < s.len() && s[i] == c && forall|j: int| 0 <= j < i ==> s[j] != c;
        Some((s.take(i), s.skip(i + 1)))
    } else {
        None
    }
}

/// `name` without a leading `@super:` marker.
pub open spec fn without_super(name: Seq<char>) -> Seq<char> {
    if name.len() >= 7 && name.take(7) == super_prefix() {
        name.skip(7)
    } else {
        name
    }
}

/// The part after an imported module prefix `#<digits>.`, or `name` itself
/// when it has no such prefix; `None` for a malformed prefix.
pub open spec fn module_body(name: Seq<char>) -> Option<Seq<char>> {
    if name.len() > 0 && name[0] == '#' {
        match split_first(name.skip(1), '.') {
            Some((id, rest)) => if id.len() > 0 && all_digits(id) {
                Some(rest)
            } else {
                None
            },
            None => None,
        }
    } else {
        Some(name)
    }
}

/// `Head` is a user function; `Head.Member` is a synthesised function when the
/// member is a documented suffix and a user method when it is an identifier.
pub open spec fn classify_body(body: Seq<char>) -> Option<EmittedNameKind> {
    match split_first(body, '.') {
        None => if is_identifier(body) {
            Some(EmittedNameKind::User)
        } else {
            None
        },
        Some((head, member)) => if !is_identifier(head) || has_char(member, '.') {
            None
        } else if synthesised_suffix(member) is Some {
            synthesised_suffix(member)
        } else if is_identifier(member) {
            Some(EmittedNameKind::User)
        } else {
            None
        },
    }
}

/// The documented name shapes and what each one says.
pub open spec fn spec_classify(name: Seq<char>) -> Option<EmittedNameKind> {
    let name = without_super(name);
    if name == entry_name() {
        Some(EmittedNameKind::Entry)
    } else {
        match module_body(name) {
            Some(body) => classify_body(body),
            None => None,
        }
    }
}

proof fn lemma_split_at_first(s: Seq<char>, c: char, i: int)
    requires
        0 <= i < s.len(),
        s[i] == c,
        forall|j: int| 0 <= j < i ==> s[j] != c,
    ensures
        split_first(s, c) == Some((s.take(i), s.skip(i + 1))),
{
    reveal(split_first);
    assert(has_char(s, c));
    let k = choose|k: int| 0 <= k < s.len() && s[k] == c && forall|j: int| 0 <= j < k ==> s[j] != c;
    assert(k == i) by {
        if k < i {
            assert(s[k] != c);
        }
        if i < k {
            assert(s[i] != c);
        }
    }
}

proof fn lemma_split_none(s: Seq<char>, c: char)
    requires
        forall|j: int| 0 <= j < s.len() ==> s[j] != c,
    ensures
        split_first(s, c) is None,
{
    reveal(split_first);
}

/// Whether a callee name is a documented intrinsic.
pub fn is_intrinsic(name: &str) -> (r: bool)
    ensures
        r == (name@ == for_condition_name()),
{
    let v = chars_of(name);
    let lit = ['$', 'f', 'o', 'r', '_', 'c', 'o', 'n', 'd', 'i', 't', 'i', 'o', 'n'];
    assert(lit@ =~= for_condition_name());
    crate::text::chars_are(&v, &lit)
}

fn is_identifier_range(v: &Vec<char>, lo: usize, hi: usize) -> (r: bool)
    requires
        lo <= hi <= v@.len(),
    ensures
        r == is_identifier(v@.subrange(lo as int, hi as int)),
{
    reveal(is_identifier);
    let ghost s = v@.subrange(lo as int, hi as int);
    if lo == hi {
        return false;
    }
    let first = v[lo];
    if !(('a' <= first && first <= 'z') || ('A' <= first && first <= 'Z') || first == '_') {
        assert(s[0] == first);
        return false;
    }
    let mut i = lo + 1;
    while i < hi
        invariant
            lo < i <= hi <= v@.len(),
            s == v@.subrange(lo as int, hi as int),
            forall|j: int| 1 <= j < i - lo ==> is_ascii_alpha(#[trigger] s[j]) || is_ascii_digit(
                s[j],
            ) || s[j] == '_',
        decreases hi - i,
    {
        let c = v[i];
        if !(('a' <= c && c <= 'z') || ('A' <= c && c <= 'Z') || ('0' <= c && c <= '9') || c
            == '_') {
            assert(s[i - lo] == c);
            proof {
                reveal(is_identifier);
            }
            return false;
        }
        i += 1;
    }
    true
}

fn all_digits_range(v: &Vec<char>, lo: usize, hi: usize) -> (r: bool)
    requires
        lo <= hi <= v@.len(),
    ensures
        r == all_digits(v@.subrange(lo as int, hi as int)),
{
    reveal(all_digits);
    let ghost s = v@.subrange(lo as int, hi as int);
    let mut i = lo;
    while i < hi
        invariant
            lo <= i <= hi <= v@.len(),
            s == v@.subrange(lo as int, hi as int),
            forall|j: int| 0 <= j < i - lo ==> is_ascii_digit(#[trigger] s[j]),
        decreases hi - i,
    {
        let c = v[i];
        if !('0' <= c && c <= '9') {
            assert(s[i - lo] == c);
            proof {
                reveal(all_digits);
            }
            return false;
        }
        i += 1;
    }
    true
}

fn suffix_kind_range(v: &Vec<char>, lo: usize, hi: usize) -> (r: Option<EmittedNameKind>)
    requires
        lo <= hi <= v@.len(),
    ensures
        r == synthesised_suffix(v@.subrange(lo as int, hi as int)),
{
    reveal(synthesised_suffix);
    let constructor = ['C', 'O', 'N', 'S', 'T', 'R', 'U', 'C', 'T', 'O', 'R'];
    let destructor = ['D', 'E', 'S', 'T', 'R', 'U', 'C', 'T', 'O', 'R'];
    let fields = ['$', 'f', 'i', 'e', 'l', 'd', 's'];
    let init = ['$', 'i', 'n', 'i', 't'];
    let default = ['$', 'd', 'e', 'f', 'a', 'u', 'l', 't'];
    assert(constructor@ =~= seq!['C', 'O', 'N', 'S', 'T', 'R', 'U', 'C', 'T', 'O', 'R']);
    assert(destructor@ =~= seq!['D', 'E', 'S', 'T', 'R', 'U', 'C', 'T', 'O', 'R']);
    assert(fields@ =~= seq!['$', 'f', 'i', 'e', 'l', 'd', 's']);
    assert(init@ =~= seq!['$', 'i', 'n', 'i', 't']);
    assert(default@ =~= seq!['$', 'd', 'e', 'f', 'a', 'u', 'l', 't']);
    if range_is(v, lo, hi, &constructor) {
        Some(EmittedNameKind::Constructor)
    } else if range_is(v, lo, hi, &destructor) {
        Some(EmittedNameKind::Destructor)
    } else if range_is(v, lo, hi, &fields) {
        Some(EmittedNameKind::FieldInit)
    } else if range_is(v, lo, hi, &init) {
        Some(EmittedNameKind::Init)
    } else if range_is(v, lo, hi, &default) {
        Some(EmittedNameKind::Default)
    } else {
        None
    }
}

fn classify_body_range(v: &Vec<char>, lo: usize, hi: usize) -> (r: Option<EmittedNameKind>)
    requires
        lo <= hi <= v@.len(),
    ensures
        r == classify_body(v@.subrange(lo as int, hi as int)),
{
    let ghost s = v@.subrange(lo as int, hi as int);
    match find_char(v, lo, hi, '.') {
        None => {
            proof {
                assert forall|j: int| 0 <= j < s.len() implies s[j] != '.' by {
                    assert(s[j] == v@[lo + j]);
                }
                lemma_split_none(s, '.');
            }
            if is_identifier_range(v, lo, hi) {
                Some(EmittedNameKind::User)
            } else {
                None
            }
        },
        Some(dot) => {
            proof {
                let k = dot - lo;
                assert forall|j: int| 0 <= j < k implies s[j] != '.' by {
                    assert(s[j] == v@[lo + j]);
                }
                lemma_split_at_first(s, '.', k);
                assert(s.take(k) =~= v@.subrange(lo as int, dot as int));
                assert(s.skip(k + 1) =~= v@.subrange(dot + 1, hi as int));
            }
            let ghost member = v@.subrange(dot + 1, hi as int);
            if !is_identifier_range(v, lo, dot) {
                return None;
            }
            match find_char(v, dot + 1, hi, '.') {
                Some(second) => {
                    assert(member[second - dot - 1] == '.');
                    return None;
                },
                None => {
                    assert(!has_char(member, '.')) by {
                        if has_char(member, '.') {
                            let i = choose|i: int| 0 <= i < member.len() && member[i] == '.';
                            assert(v@[dot + 1 + i] == '.');
                        }
                    }
                },
            }
            let suffix = suffix_kind_range(v, dot + 1, hi);
            if suffix.is_some() {
                suffix
            } else if is_identifier_range(v, dot + 1, hi) {
                Some(EmittedNameKind::User)
            } else {
                None
            }
        },
    }
}

/// Classifies an emitted function name, or `None` when the name follows no
/// documented pattern (a lowering bug or an undocumented extension).
pub fn classify(name: &str) -> (r: Option<EmittedNameKind>)
    ensures
        r == spec_classify(name@),
{
    let v = chars_of(name);
    let super_lit = ['@', 's', 'u', 'p', 'e', 'r', ':'];
    assert(super_lit@ =~= super_prefix());
    let start: usize = if v.len() >= 7 && range_is(&v, 0, 7, &super_lit) {
        7
    } else {
        0
    };
    let ghost n = v@.subrange(start as int, v@.len() as int);
    assert(n =~= without_super(name@));
    let entry = ['S', 't', 'a', 'r', 't'];
    assert(entry@ =~= entry_name());
    if range_is(&v, start, v.len(), &entry) {
        return Some(EmittedNameKind::Entry);
    }
    if start < v.len() && v[start] == '#' {
        assert(n[0] == '#');
        let ghost rest = n.skip(1);
        assert(rest =~= v@.subrange(start + 1, v@.len() as int));
        match find_char(&v, start + 1, v.len(), '.') {
            None => {
                proof {
                    assert forall|j: int| 0 <= j < rest.len() implies rest[j] != '.' by {
                        assert(rest[j] == v@[start + 1 + j]);
                    }
                    lemma_split_none(rest, '.');
                }
                None
            },
            Some(dot) => {
                proof {
                    let k = dot - start - 1;
                    assert forall|j: int| 0 <= j < k implies rest[j] != '.' by {
                        assert(rest[j] == v@[start + 1 + j]);
                    }
                    lemma_split_at_first(rest, '.', k);
                    assert(rest.take(k) =~= v@.subrange(start + 1, dot as int));
                    assert(rest.skip(k + 1) =~= v@.subrange(dot + 1, v@.len() as int));
                }
                if dot == start + 1 || !all_digits_range(&v, start + 1, dot) {
                    None
                } else {
                    classify_body_range(&v, dot + 1, v.len())
                }
            },
        }
    } else {
        classify_body_range(&v, start, v.len())
    }
}


// ---------------------------------------------------------------------------
// Laws of the name protocol

/// The first occurrence of `c` in `s`.
proof fn lemma_first_index(s: Seq<char>, c: char) -> (i: int)
    requires
        has_char(s, c),
    ensures
        0 <= i < s.len(),
        s[i] == c,
        forall|j: int| 0 <= j < i ==> s[j] != c,
    decreases s.len(),
{
    if s[0] == c {
        0
    } else {
        let w = choose|w: int| 0 <= w < s.len() && s[w] == c;
        assert(has_char(s.skip(1), c)) by {
            assert(s.skip(1)[w - 1] == c);
        }
        let k = lemma_first_index(s.skip(1), c);
        assert forall|j: int| 0 <= j < k + 1 implies s[j] != c by {
            if j > 0 {
                assert(s[j] == s.skip(1)[j - 1]);
            }
        }
        k + 1
    }
}

/// A name that begins with the synthesised marker `$` (as every intrinsic
/// does) never classifies: intrinsics are callees, never functions.
pub proof fn lemma_marker_names_never_classify(name: Seq<char>)
    requires
        name.len() > 0,
        name[0] == '$',
    ensures
        spec_classify(name) is None,
{
    assert(!(name.len() >= 7 && name.take(7) == super_prefix())) by {
        if name.len() >= 7 && name.take(7) == super_prefix() {
            assert(name.take(7)[0] == name[0]);
        }
    }
    assert(without_super(name) == name);
    assert(name != entry_name()) by {
        if name == entry_name() {
            assert(name[0] == 'S');
        }
    }
    assert(module_body(name) == Some(name));
    if has_char(name, '.') {
        let i = lemma_first_index(name, '.');
        lemma_split_at_first(name, '.', i);
        assert(i > 0);
        let head = name.take(i);
        assert(head[0] == '$');
        assert(!is_identifier(head)) by {
            reveal(is_identifier);
        }
    } else {
        lemma_split_none(name, '.');
        assert(!is_identifier(name)) by {
            reveal(is_identifier);
        }
    }
}

/// Every intrinsic is a callee with no function behind it: it never
/// classifies as a function name.
pub proof fn lemma_intrinsics_never_classify(name: Seq<char>)
    requires
        name == for_condition_name(),
    ensures
        spec_classify(name) is None,
{
    lemma_marker_names_never_classify(name);
}

/// The `@super:` marker is transparent: a super-call target classifies as
/// the name it marks.
pub proof fn lemma_super_marker_transparent(name: Seq<char>)
    requires
        !(name.len() >= 7 && name.take(7) == super_prefix()),
    ensures
        spec_classify(super_prefix() + name) == spec_classify(name),
{
    let marked = super_prefix() + name;
    assert(marked.take(7) =~= super_prefix());
    assert(marked.skip(7) =~= name);
    assert(without_super(marked) == name);
    assert(without_super(name) == name);
}

/// `Owner.Suffix`, for an identifier owner and a synthesised suffix, names
/// the function kind of that suffix, and nothing else does.
pub proof fn lemma_synthesised_suffix_classifies(owner: Seq<char>, suffix: Seq<char>)
    requires
        is_identifier(owner),
        synthesised_suffix(suffix) is Some,
    ensures
        spec_classify(owner + seq!['.'] + suffix) == synthesised_suffix(suffix),
{
    let name = owner + seq!['.'] + suffix;
    let n = owner.len() as int;
    assert(n > 0) by {
        reveal(is_identifier);
    }
    assert(name[0] == owner[0]);
    assert(owner[0] != '@' && owner[0] != '#' && owner[0] != '.') by {
        reveal(is_identifier);
    }
    assert(!(name.len() >= 7 && name.take(7) == super_prefix())) by {
        if name.len() >= 7 && name.take(7) == super_prefix() {
            assert(name.take(7)[0] == name[0]);
        }
    }
    assert(without_super(name) == name);
    assert(name != entry_name()) by {
        if name == entry_name() {
            assert(name[n] == '.');
        }
    }
    assert(module_body(name) == Some(name));
    assert forall|j: int| 0 <= j < n implies name[j] != '.' by {
        assert(name[j] == owner[j]);
        reveal(is_identifier);
        if j > 0 {
            assert(is_ascii_alpha(owner[j]) || is_ascii_digit(owner[j]) || owner[j] == '_');
        }
    }
    lemma_split_at_first(name, '.', n);
    assert(name.take(n) =~= owner);
    assert(name.skip(n + 1) =~= suffix);
    assert(!has_char(suffix, '.')) by {
        reveal(synthesised_suffix);
        if has_char(suffix, '.') {
            let i = choose|i: int| 0 <= i < suffix.len() && suffix[i] == '.';
        }
    }
}

/// The `BNWeb.` prefix of the web library's member names.
pub open spec fn web_prefix() -> Seq<char> {
    seq!['B', 'N', 'W', 'e', 'b', '.']
}

/// A member name without the web library's prefix.
pub open spec fn web_member_name(name: Seq<char>) -> Seq<char> {
    if name.len() >= 6 && name.take(6) == web_prefix() {
        name.skip(6)
    } else {
        name
    }
}

/// `name` is the constructor or field initialiser of a provider-backed
/// class: by the kind of the module's function of that name, or, where the
/// module has none, by the name's documented shape.
pub open spec fn lifecycle_stub(m: Module, name: Seq<char>) -> bool {
    let n = web_member_name(name);
    match first_function(m, |f: Function| f.name@ == n) {
        Some(i) => m.functions@[i].kind == FunctionKind::Constructor || m.functions@[i].kind
            == FunctionKind::FieldInit,
        None => spec_classify(n) == Some(EmittedNameKind::Constructor) || spec_classify(n) == Some(
            EmittedNameKind::FieldInit,
        ),
    }
}

/// A member name without the web library's prefix.
fn web_member(name: &str) -> (r: String)
    ensures
        r@ == web_member_name(name@),
{
    let v = chars_of(name);
    let prefix = ['B', 'N', 'W', 'e', 'b', '.'];
    assert(prefix@ =~= web_prefix());
    let start: usize = if v.len() >= 6 && range_is(&v, 0, 6, &prefix) {
        assert(v@.subrange(0, 6) =~= v@.take(6));
        6
    } else {
        0
    };
    let mut member: Vec<char> = Vec::new();
    let mut i: usize = start;
    while i < v.len()
        invariant
            start <= i <= v@.len(),
            member@ == v@.subrange(start as int, i as int),
        decreases v@.len() - i,
    {
        member.push(v[i]);
        i += 1;
        assert(member@ =~= v@.subrange(start as int, i as int));
    }
    assert(member@ =~= web_member_name(name@));
    string_of(&member)
}

/// Whether the web library's member `name` is a lifecycle stub, which does
/// nothing when called: provider-backed classes have no lowered constructor.
pub fn is_lifecycle_stub(module: &Module, name: &str) -> (r: bool)
    ensures
        r == lifecycle_stub(*module, name@),
{
    let member = web_member(name);
    proof {
        let n = web_member_name(name@);
        assert((|f: Function| f.name@ == member@) =~= (|f: Function| f.name@ == n));
    }
    match module.kind_of(member.as_str()) {
        Some(kind) => kind == FunctionKind::Constructor || kind == FunctionKind::FieldInit,
        None => match classify(member.as_str()) {
            Some(EmittedNameKind::Constructor) | Some(EmittedNameKind::FieldInit) => true,
            _ => false,
        },
    }
}

} // verus!
