//! Class inheritance metadata: the base chain of a class and its acyclicity.
use vstd::prelude::*;
use crate::model::{Module, base_index, base_of};
use crate::source::{Diagnostic, Span, invalid_ir};
use crate::text::{chars_of, str_eq};

verus! {

/// One step up the base chain; a class with no base stays where it is.
pub open spec fn next_ancestor(m: Module, c: Seq<char>) -> Seq<char> {
    match base_of(m, c) {
        Some(b) => b,
        None => c,
    }
}

/// The class reached from `c` after `n` steps up the base chain.
pub open spec fn ancestor(m: Module, c: Seq<char>, n: nat) -> Seq<char>
    decreases n,
{
    if n == 0 {
        c
    } else {
        next_ancestor(m, ancestor(m, c, (n - 1) as nat))
    }
}

/// Following bases from `c` reaches a class that has no base.
pub open spec fn walk_ends(m: Module, c: Seq<char>) -> bool {
    exists|n: nat| #[trigger] base_of(m, ancestor(m, c, n)) is None
}

/// Every class with a recorded base has a finite base chain.
pub open spec fn bases_acyclic(m: Module) -> bool {
    forall|i: int| 0 <= i < m.class_bases@.len() ==> walk_ends(m, (#[trigger] m.class_bases@[i]).0@)
}

/// `c` is `owner` or has `owner` somewhere up its base chain.
pub open spec fn derives_from(m: Module, c: Seq<char>, owner: Seq<char>) -> bool {
    exists|n: nat| #[trigger] ancestor(m, c, n) == owner
}

pub open spec fn fields_function_name(identity: Seq<char>) -> Seq<char> {
    identity + seq!['.', '$', 'f', 'i', 'e', 'l', 'd', 's']
}

/// The module has a function named `<identity>.$fields`.
pub open spec fn has_fields_function(m: Module, identity: Seq<char>) -> bool {
    exists|i: int|
        0 <= i < m.functions@.len() && (#[trigger] m.functions@[i]).name@ == fields_function_name(
            identity,
        )
}

/// Inheritance metadata is well formed: identities are non-empty, every base
/// chain is finite, and both ends of every link name a lowered class.
pub open spec fn class_bases_valid(m: Module) -> bool {
    forall|i: int|
        0 <= i < m.class_bases@.len() ==> {
            let (class, base) = #[trigger] m.class_bases@[i];
            &&& class@.len() > 0
            &&& base@.len() > 0
            &&& walk_ends(m, class@)
            &&& has_fields_function(m, class@)
            &&& has_fields_function(m, base@)
        }
}

/// The message for inheritance metadata that names a class with no layout
/// function.
pub open spec fn missing_class_message(identity: Seq<char>) -> Seq<char> {
    "class layout metadata references missing class '"@ + identity + "'"@
}

/// The message for the first refused class-base entry from entry `k` on.
pub open spec fn class_bases_error(m: Module, k: int) -> Option<Seq<char>>
    decreases m.class_bases@.len() - k,
{
    if k < 0 || k >= m.class_bases@.len() {
        None
    } else {
        let (class, base) = m.class_bases@[k];
        if class@.len() == 0 || base@.len() == 0 {
            Some("class and base identities cannot be empty"@)
        } else if !walk_ends(m, class@) {
            Some("class inheritance metadata must be acyclic"@)
        } else if !has_fields_function(m, class@) {
            Some(missing_class_message(class@))
        } else if !has_fields_function(m, base@) {
            Some(missing_class_message(base@))
        } else {
            class_bases_error(m, k + 1)
        }
    }
}

pub proof fn lemma_period(m: Module, c: Seq<char>, t: nat, p: nat, i: nat)
    requires
        ancestor(m, c, t + p) == ancestor(m, c, t),
    ensures
        ancestor(m, c, t + p + i) == ancestor(m, c, t + i),
    decreases i,
{
    if i > 0 {
        lemma_period(m, c, t, p, (i - 1) as nat);
        assert(ancestor(m, c, t + p + i) == next_ancestor(m, ancestor(m, c, (t + p + i - 1) as nat)));
        assert(ancestor(m, c, t + i) == next_ancestor(m, ancestor(m, c, (t + i - 1) as nat)));
    }
}

/// A walk that revisits a class, having found a base at every step so far,
/// never reaches a class without a base.
pub proof fn lemma_revisit_never_ends(m: Module, c: Seq<char>, t: nat, j: nat, n: nat)
    requires
        t < j,
        ancestor(m, c, t) == ancestor(m, c, j),
        forall|s: nat| s < j ==> #[trigger] base_of(m, ancestor(m, c, s)) is Some,
    ensures
        base_of(m, ancestor(m, c, n)) is Some,
    decreases n,
{
    if n < j {
    } else if n == j {
        assert(base_of(m, ancestor(m, c, t)) is Some);
    } else {
        let p = (j - t) as nat;
        lemma_period(m, c, t, p, (n - j) as nat);
        assert(t + p + (n - j) == n);
        lemma_revisit_never_ends(m, c, t, j, (n - p) as nat);
    }
}

/// After the walk stops, it stays where it stopped.
pub proof fn lemma_stays(m: Module, c: Seq<char>, k: nat, n: nat)
    requires
        base_of(m, ancestor(m, c, k)) is None,
        k <= n,
    ensures
        ancestor(m, c, n) == ancestor(m, c, k),
    decreases n,
{
    if n > k {
        lemma_stays(m, c, k, (n - 1) as nat);
    }
}

/// Every class name, keyed or not, has a finite base chain when the keyed ones do.
pub proof fn lemma_all_walks_end(m: Module, c: Seq<char>)
    requires
        bases_acyclic(m),
    ensures
        walk_ends(m, c),
{
    match base_index(m, c) {
        Some(i) => {
            assert(m.class_bases@[i].0@ == c);
            assert(walk_ends(m, m.class_bases@[i].0@));
        },
        None => {
            assert(ancestor(m, c, 0) == c);
            assert(base_of(m, ancestor(m, c, 0)) is None);
        },
    }
}

/// Whether `c` is `owner` or derives from it. Follows the base chain, which
/// `bases_acyclic` makes finite.
pub fn derives_from_exec(m: &Module, c: &str, owner: &[char]) -> (r: bool)
    requires
        m.wf(),
        bases_acyclic(*m),
    ensures
        r == derives_from(*m, c@, owner@),
{
    proof {
        lemma_all_walks_end(*m, c@);
    }
    let ghost n_end = choose|n: nat| #[trigger] base_of(*m, ancestor(*m, c@, n)) is None;
    let mut current: &str = c;
    let ghost mut k: nat = 0;
    loop
        invariant
            m.wf(),
            current@ == ancestor(*m, c@, k),
            base_of(*m, ancestor(*m, c@, n_end)) is None,
            k <= n_end,
            forall|s: nat| s < k ==> #[trigger] ancestor(*m, c@, s) != owner@,
        decreases n_end - k,
    {
        let cur = chars_of(current);
        if crate::text::chars_are(&cur, owner) {
            return true;
        }
        match m.find_base(current) {
            None => {
                proof {
                    assert forall|n: nat| #[trigger] ancestor(*m, c@, n) != owner@ by {
                        if n >= k {
                            lemma_stays(*m, c@, k, n);
                        }
                    }
                }
                return false;
            },
            Some(idx) => {
                proof {
                    if k == n_end {
                        assert(base_of(*m, ancestor(*m, c@, k)) is Some);
                    }
                }
                current = m.class_bases[idx].1.as_str();
                proof {
                    k = k + 1;
                }
            },
        }
    }
}

/// Whether the module has a function named `<identity>.$fields`.
pub fn has_fields_function_exec(m: &Module, identity: &String) -> (r: bool)
    ensures
        r == has_fields_function(*m, identity@),
{
    let mut wanted = identity.clone();
    crate::text::push_str(&mut wanted, ".$fields");
    proof {
        reveal_strlit(".$fields");
        assert(wanted@ =~= fields_function_name(identity@));
    }
    let mut i: usize = 0;
    while i < m.functions.len()
        invariant
            0 <= i <= m.functions@.len(),
            wanted@ == fields_function_name(identity@),
            forall|j: int| 0 <= j < i ==> (#[trigger] m.functions@[j]).name@ != wanted@,
        decreases m.functions@.len() - i,
    {
        if m.functions[i].name == wanted {
            return true;
        }
        i += 1;
    }
    false
}

/// Checks inheritance metadata.
pub fn validate_class_bases(m: &Module, span: Span) -> (r: Result<(), Diagnostic>)
    requires
        m.wf(),
    ensures
        r is Ok <==> class_bases_valid(*m),
        r is Ok <==> class_bases_error(*m, 0) is None,
        r matches Err(d) ==> d.code@ == crate::source::invalid_ir_code() && d.span == span
            && class_bases_error(*m, 0) == Some(d.message@),
{
    let mut k: usize = 0;
    while k < m.class_bases.len()
        invariant
            0 <= k <= m.class_bases@.len(),
            m.wf(),
            class_bases_error(*m, 0) == class_bases_error(*m, k as int),
            forall|i: int|
                0 <= i < k ==> {
                    let (class, base) = #[trigger] m.class_bases@[i];
                    &&& class@.len() > 0
                    &&& base@.len() > 0
                    &&& walk_ends(*m, class@)
                    &&& has_fields_function(*m, class@)
                    &&& has_fields_function(*m, base@)
                },
        decreases m.class_bases@.len() - k,
    {
        let class = &m.class_bases[k].0;
        let base = &m.class_bases[k].1;
        if class.as_str().is_empty() || base.as_str().is_empty() {
            return Err(invalid_ir("class and base identities cannot be empty", span));
        }
        if !walk_ends_exec(m, class) {
            return Err(invalid_ir("class inheritance metadata must be acyclic", span));
        }
        if !has_fields_function_exec(m, class) {
            return Err(missing_class(class, span));
        }
        if !has_fields_function_exec(m, base) {
            return Err(missing_class(base, span));
        }
        k += 1;
    }
    Ok(())
}

fn missing_class(identity: &String, span: Span) -> (d: Diagnostic)
    ensures
        d.code@ == crate::source::invalid_ir_code(),
        d.message@ == missing_class_message(identity@),
        d.span == span,
{
    let mut message = String::new();
    crate::text::push_str(&mut message, "class layout metadata references missing class '");
    crate::text::push_str(&mut message, identity.as_str());
    crate::text::push_str(&mut message, "'");
    assert(message@ =~= missing_class_message(identity@));
    invalid_ir(message.as_str(), span)
}

/// Follows the base chain from `class`, reporting whether it ends or revisits
/// a class.
fn walk_ends_exec(m: &Module, class: &String) -> (r: bool)
    requires
        m.wf(),
    ensures
        r == walk_ends(*m, class@),
{
    let n = m.class_bases.len();
    let mut seen: Vec<bool> = Vec::new();
    let mut i: usize = 0;
    while i < n
        invariant
            0 <= i <= n,
            n == m.class_bases@.len(),
            seen@.len() == i,
            forall|j: int| 0 <= j < i ==> !seen@[j],
        decreases n - i,
    {
        seen.push(false);
        i += 1;
    }
    proof {
        lemma_filter_all_false(seen@);
    }
    // Step at which each key was visited.
    let ghost mut visited_at: Seq<nat> = Seq::new(n as nat, |j: int| 0nat);
    let ghost mut unseen: nat = n as nat;
    let ghost c = class@;
    let mut current: &String = class;
    let ghost mut k: nat = 0;
    loop
        invariant
            m.wf(),
            n == m.class_bases@.len(),
            seen@.len() == n,
            visited_at.len() == n,
            current@ == ancestor(*m, c, k),
            c == class@,
            unseen == seen@.filter(|b: bool| !b).len(),
            forall|s: nat| s < k ==> #[trigger] base_of(*m, ancestor(*m, c, s)) is Some,
            forall|j: int|
                0 <= j < n && #[trigger] seen@[j] ==> visited_at[j] < k && ancestor(
                    *m,
                    c,
                    visited_at[j],
                ) == m.class_bases@[j].0@,
        decreases unseen,
    {
        match m.find_base(current.as_str()) {
            None => {
                assert(base_of(*m, ancestor(*m, c, k)) is None);
                assert(walk_ends(*m, class@));
                return true;
            },
            Some(idx) => {
                if seen[idx] {
                    proof {
                        let t = visited_at[idx as int];
                        assert forall|x: nat| #[trigger] base_of(*m, ancestor(*m, c, x)) is Some by {
                            lemma_revisit_never_ends(*m, c, t, k, x);
                        }
                        assert(!walk_ends(*m, class@));
                    }
                    return false;
                }
                proof {
                    let old_seen = seen@;
                    lemma_filter_flip(old_seen, idx as int);
                    unseen = (unseen - 1) as nat;
                    visited_at = visited_at.update(idx as int, k);
                }
                seen.set(idx, true);
                current = &m.class_bases[idx].1;
                proof {
                    k = k + 1;
                }
            },
        }
    }
}

proof fn lemma_filter_all_false(s: Seq<bool>)
    requires
        forall|j: int| 0 <= j < s.len() ==> !s[j],
    ensures
        s.filter(|b: bool| !b).len() == s.len(),
    decreases s.len(),
{
    reveal(Seq::filter);
    if s.len() > 0 {
        lemma_filter_all_false(s.drop_last());
    }
}

proof fn lemma_filter_flip(s: Seq<bool>, i: int)
    requires
        0 <= i < s.len(),
        !s[i],
    ensures
        s.update(i, true).filter(|b: bool| !b).len() + 1 == s.filter(|b: bool| !b).len(),
    decreases s.len(),
{
    let f = |b: bool| !b;
    let t = s.update(i, true);
    if i == s.len() - 1 {
        assert(t.drop_last() =~= s.drop_last());
        assert(s.filter(f) == s.drop_last().filter(f).push(s.last())) by {
            reveal(Seq::filter);
        }
        assert(t.filter(f) == t.drop_last().filter(f)) by {
            reveal(Seq::filter);
        }
    } else {
        lemma_filter_flip(s.drop_last(), i);
        assert(t.drop_last() =~= s.drop_last().update(i, true));
        reveal(Seq::filter);
        assert(t.last() == s.last());
    }
}

} // verus!
