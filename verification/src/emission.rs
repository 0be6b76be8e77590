//! The state of emitting one function as LLVM text: lines built from
//! pieces, the counters that name temporaries and continuation blocks, and
//! the block exits and deferred Phi nodes resolved once the whole function
//! has been emitted.
use vstd::prelude::*;
use std::collections::HashMap;
use crate::model::{BlockId, ValueId};
use crate::text::{
    boundary_char_index, boundary_index, chars_of, copy_string, decimal, decimal_string,
    is_char_boundary, lemma_boundary_index, push_char, push_decimal, push_str,
};

verus! {

broadcast use vstd::std_specs::hash::group_hash_axioms;

// Emitted lines

/// The models of a list of text pieces.
pub open spec fn pieces(parts: Seq<&str>) -> Seq<Seq<char>> {
    parts.map_values(|p: &str| p@)
}

/// One emitted line: the pieces in order, then a newline.
pub open spec fn line(parts: Seq<Seq<char>>) -> Seq<char> {
    parts.flatten_alt() + seq!['\n']
}

/// Appends the pieces in order and ends the line.
pub fn push_line(text: &mut String, parts: &[&str])
    ensures
        final(text)@ == old(text)@ + line(pieces(parts@)),
{
    let ghost start = text@;
    let mut i: usize = 0;
    while i < parts.len()
        invariant
            0 <= i <= parts@.len(),
            text@ == start + pieces(parts@).take(i as int).flatten_alt(),
        decreases parts@.len() - i,
    {
        push_str(text, parts[i]);
        proof {
            let ps = pieces(parts@);
            assert(ps.take(i + 1).drop_last() =~= ps.take(i as int));
            assert(ps.take(i + 1).last() == parts@[i as int]@);
        }
        i += 1;
    }
    assert(pieces(parts@).take(parts@.len() as int) =~= pieces(parts@));
    push_char(text, '\n');
}

// Emission state

/// Counters and flags threaded through the emission of one function.
pub struct EmissionState {
    /// `PRINT` statements emitted so far; numbers their temporaries.
    pub print_count: usize,
    /// Continuation blocks opened so far; numbers their labels.
    pub continuation_count: usize,
    /// Some emitted code branches to the numeric-overflow trap.
    pub needs_numeric_overflow_trap: bool,
    /// Block exits and deferred Phi nodes of the function.
    pub control_flow: EmittedControlFlow,
}

impl EmissionState {
    /// The state at the start of a function.
    pub fn new() -> (s: Self)
        ensures
            s.print_count == 0,
            s.continuation_count == 0,
            !s.needs_numeric_overflow_trap,
            s.control_flow.current() == Seq::<char>::empty(),
            s.control_flow.exit_labels() == Map::<u32, Seq<char>>::empty(),
            s.control_flow.pending() == Seq::<PhiV>::empty(),
    {
        EmissionState {
            print_count: 0,
            continuation_count: 0,
            needs_numeric_overflow_trap: false,
            control_flow: EmittedControlFlow::new(),
        }
    }
}

/// The label of continuation block `n` of IR block `block`.
pub open spec fn continuation_label(block: u32, n: nat) -> Seq<char> {
    "b"@ + decimal(block as nat) + ".cont"@ + decimal(n)
}

/// Names the next continuation block of `block_id` and counts it.
pub fn take_continuation(block_id: BlockId, state: &mut EmissionState) -> (name: String)
    requires
        old(state).continuation_count < usize::MAX,
    ensures
        name@ == continuation_label(block_id.0, old(state).continuation_count as nat),
        final(state).continuation_count == old(state).continuation_count + 1,
        final(state).print_count == old(state).print_count,
        final(state).needs_numeric_overflow_trap == old(state).needs_numeric_overflow_trap,
        final(state).control_flow == old(state).control_flow,
{
    let mut name = String::new();
    push_str(&mut name, "b");
    push_decimal(&mut name, block_id.0 as u128);
    push_str(&mut name, ".cont");
    push_decimal(&mut name, state.continuation_count as u128);
    state.continuation_count = state.continuation_count + 1;
    assert(name@ =~= continuation_label(block_id.0, old(state).continuation_count as nat));
    name
}

// Emitted control flow

/// A Phi node whose incoming labels are known only once the whole function
/// has been emitted.
pub struct PendingPhi {
    /// Where the node goes, as a byte offset into the emitted text.
    pub offset: usize,
    /// The value the node defines.
    pub destination: ValueId,
    /// The LLVM type of the node.
    pub ty: String,
    /// The IR predecessor blocks, each with the value flowing in from it.
    pub incoming: Vec<(BlockId, ValueId)>,
}

/// Model of a pending Phi node.
pub ghost struct PhiV {
    pub offset: nat,
    pub destination: u32,
    pub ty: Seq<char>,
    pub incoming: Seq<(u32, u32)>,
}

/// The (block, value) numbers of incoming edges.
pub open spec fn incoming_view(s: Seq<(BlockId, ValueId)>) -> Seq<(u32, u32)> {
    s.map_values(|e: (BlockId, ValueId)| (e.0.0, e.1.0))
}

impl View for PendingPhi {
    type V = PhiV;

    open spec fn view(&self) -> PhiV {
        PhiV {
            offset: self.offset as nat,
            destination: self.destination.0,
            ty: self.ty@,
            incoming: incoming_view(self.incoming@),
        }
    }
}

/// One incoming entry of an emitted Phi node.
pub open spec fn phi_entry(value: u32, label: Seq<char>) -> Seq<char> {
    "[ %v"@ + decimal(value as nat) + ", %"@ + label + " ]"@
}

/// The entries of the incoming edges whose IR block has been emitted, in
/// order; `exits` gives the last LLVM label of each emitted IR block.
pub open spec fn incoming_entries(incoming: Seq<(u32, u32)>, exits: Map<u32, Seq<char>>) -> Seq<Seq<char>>
    decreases incoming.len(),
{
    if incoming.len() == 0 {
        Seq::empty()
    } else {
        let rest = incoming_entries(incoming.drop_last(), exits);
        let e = incoming.last();
        if exits.contains_key(e.0) {
            rest.push(phi_entry(e.1, exits[e.0]))
        } else {
            rest
        }
    }
}

/// Texts separated by `, `.
pub open spec fn joined(entries: Seq<Seq<char>>) -> Seq<char>
    decreases entries.len(),
{
    if entries.len() == 0 {
        Seq::empty()
    } else if entries.len() == 1 {
        entries[0]
    } else {
        joined(entries.drop_last()) + ", "@ + entries.last()
    }
}

/// The emitted line of Phi node `p` with the given incoming entries.
pub open spec fn phi_text(p: PhiV, entries: Seq<Seq<char>>) -> Seq<char> {
    line(seq!["  %v"@, decimal(p.destination as nat), " = phi "@, p.ty, " "@, joined(entries)])
}

/// `piece` inserted into `text` before character `offset`.
pub open spec fn insert_at(text: Seq<char>, offset: int, piece: Seq<char>) -> Seq<char> {
    text.take(offset) + piece + text.skip(offset)
}

/// `piece` inserted into `text` at byte offset `offset` of its UTF-8
/// encoding, a char boundary.
pub open spec fn insert_at_byte(text: Seq<char>, offset: nat, piece: Seq<char>) -> Seq<char> {
    insert_at(text, boundary_index(text, offset), piece)
}

/// Each pending node that is inserted (the last recorded first, up to the
/// first node no emitted predecessor reaches) has its byte offset on a char
/// boundary of the text as it stands when the node goes in.
pub open spec fn insertable(text: Seq<char>, phis: Seq<PhiV>, exits: Map<u32, Seq<char>>) -> bool
    decreases phis.len(),
{
    if phis.len() == 0 {
        true
    } else {
        let p = phis.last();
        let entries = incoming_entries(p.incoming, exits);
        if entries.len() == 0 {
            true
        } else {
            is_char_boundary(text, p.offset) && insertable(
                insert_at_byte(text, p.offset, phi_text(p, entries)),
                phis.drop_last(),
                exits,
            )
        }
    }
}

/// The text after inserting the pending Phi nodes, the last recorded first;
/// or, at the first node no emitted predecessor reaches, the text so far and
/// that node's value.
pub open spec fn resolved(text: Seq<char>, phis: Seq<PhiV>, exits: Map<u32, Seq<char>>) -> Result<
    Seq<char>,
    (Seq<char>, u32),
>
    decreases phis.len(),
{
    if phis.len() == 0 {
        Ok(text)
    } else {
        let p = phis.last();
        let entries = incoming_entries(p.incoming, exits);
        if entries.len() == 0 {
            Err((text, p.destination))
        } else {
            resolved(insert_at_byte(text, p.offset, phi_text(p, entries)), phis.drop_last(), exits)
        }
    }
}

/// The error of a Phi node that no emitted block leads to.
pub open spec fn no_predecessor_message(destination: u32) -> Seq<char> {
    "Phi %v"@ + decimal(destination as nat) + " has no reachable emitted predecessor"@
}

/// The models of a list of strings.
pub open spec fn strings_view(s: Seq<String>) -> Seq<Seq<char>> {
    s.map_values(|x: String| x@)
}

/// Inserts `piece` into `text` at byte offset `offset`.
fn insert_text(text: &mut String, byte_offset: usize, piece: &str)
    requires
        is_char_boundary(old(text)@, byte_offset as nat),
    ensures
        final(text)@ == insert_at_byte(old(text)@, byte_offset as nat, piece@),
{
    let cs = chars_of(text.as_str());
    let offset = boundary_char_index(&cs, byte_offset);
    let mut out = String::new();
    let mut i: usize = 0;
    while i < offset
        invariant
            0 <= i <= offset,
            offset <= cs@.len(),
            out@ == cs@.take(i as int),
        decreases offset - i,
    {
        push_char(&mut out, cs[i]);
        i += 1;
        assert(out@ =~= cs@.take(i as int));
    }
    push_str(&mut out, piece);
    let mut j: usize = offset;
    while j < cs.len()
        invariant
            offset <= j <= cs@.len(),
            out@ == cs@.take(offset as int) + piece@ + cs@.subrange(offset as int, j as int),
        decreases cs@.len() - j,
    {
        push_char(&mut out, cs[j]);
        j += 1;
        assert(out@ =~= cs@.take(offset as int) + piece@ + cs@.subrange(offset as int, j as int));
    }
    assert(cs@.subrange(offset as int, cs@.len() as int) =~= cs@.skip(offset as int));
    *text = out;
}

/// The entries joined by `, `.
fn join_entries(entries: &Vec<String>) -> (r: String)
    ensures
        r@ == joined(strings_view(entries@)),
{
    let mut r = String::new();
    let mut i: usize = 0;
    while i < entries.len()
        invariant
            0 <= i <= entries@.len(),
            r@ == joined(strings_view(entries@).take(i as int)),
        decreases entries@.len() - i,
    {
        let ghost es = strings_view(entries@);
        if i > 0 {
            push_str(&mut r, ", ");
        }
        push_str(&mut r, entries[i].as_str());
        proof {
            assert(es.take(i + 1).drop_last() =~= es.take(i as int));
            assert(es.take(i + 1).last() == entries@[i as int]@);
            if i == 0 {
                assert(es.take(0) =~= Seq::<Seq<char>>::empty());
            }
        }
        i += 1;
    }
    assert(strings_view(entries@).take(entries@.len() as int) =~= strings_view(entries@));
    r
}

/// Physical exits and Phi relocations of one emitted function. An IR block
/// may expand into several LLVM blocks; the Phi nodes of its successors must
/// name the last of them, including predecessors emitted later (back edges).
pub struct EmittedControlFlow {
    current_label: String,
    exits: HashMap<u32, String>,
    phis: Vec<PendingPhi>,
}

impl EmittedControlFlow {
    /// The LLVM block being emitted.
    pub closed spec fn current(&self) -> Seq<char> {
        self.current_label@
    }

    /// The last LLVM label of each finished IR block.
    pub closed spec fn exit_labels(&self) -> Map<u32, Seq<char>> {
        self.exits@.map_values(|s: String| s@)
    }

    /// The Phi nodes waiting for their incoming labels, in the order recorded.
    pub closed spec fn pending(&self) -> Seq<PhiV> {
        self.phis@.map_values(|p: PendingPhi| p@)
    }

    /// Nothing emitted yet.
    pub fn new() -> (c: Self)
        ensures
            c.current() == Seq::<char>::empty(),
            c.exit_labels() == Map::<u32, Seq<char>>::empty(),
            c.pending() == Seq::<PhiV>::empty(),
    {
        let c = EmittedControlFlow { current_label: String::new(), exits: HashMap::new(), phis: Vec::new() };
        assert(c.exit_labels() =~= Map::<u32, Seq<char>>::empty());
        assert(c.pending() =~= Seq::<PhiV>::empty());
        c
    }

    /// Starts LLVM block `label`.
    pub fn label(&mut self, text: &mut String, label: String)
        ensures
            final(text)@ == old(text)@ + line(seq![label@, ":"@]),
            final(self).current() == label@,
            final(self).exit_labels() == old(self).exit_labels(),
            final(self).pending() == old(self).pending(),
    {
        let parts = [label.as_str(), ":"];
        push_line(text, &parts);
        assert(pieces(parts@) =~= seq![label@, ":"@]);
        self.current_label = label;
    }

    /// Records that IR block `block` ends in the current LLVM block.
    pub fn finish_block(&mut self, block: BlockId)
        ensures
            final(self).exit_labels() == old(self).exit_labels().insert(block.0, old(self).current()),
            final(self).current() == old(self).current(),
            final(self).pending() == old(self).pending(),
    {
        let label = copy_string(&self.current_label);
        self.exits.insert(block.0, label);
        assert(self.exit_labels() =~= old(self).exit_labels().insert(block.0, old(self).current()));
    }

    /// Records a Phi node to be inserted at byte `offset` once every
    /// predecessor's exit label is known.
    pub fn defer_phi(&mut self, offset: usize, destination: ValueId, ty: &str, incoming: &[(BlockId, ValueId)])
        ensures
            final(self).pending() == old(self).pending().push(
                PhiV {
                    offset: offset as nat,
                    destination: destination.0,
                    ty: ty@,
                    incoming: incoming_view(incoming@),
                },
            ),
            final(self).current() == old(self).current(),
            final(self).exit_labels() == old(self).exit_labels(),
    {
        let phi = PendingPhi {
            offset,
            destination,
            ty: String::from_str(ty),
            incoming: vstd::slice::slice_to_vec(incoming),
        };
        self.phis.push(phi);
        assert(self.pending() =~= old(self).pending().push(
            PhiV {
                offset: offset as nat,
                destination: destination.0,
                ty: ty@,
                incoming: incoming_view(incoming@),
            },
        ));
    }

    /// The incoming entries of a Phi node whose IR block has been emitted.
    fn entries(&self, incoming: &Vec<(BlockId, ValueId)>) -> (r: Vec<String>)
        ensures
            strings_view(r@) == incoming_entries(incoming_view(incoming@), self.exit_labels()),
    {
        let mut r: Vec<String> = Vec::new();
        let mut j: usize = 0;
        while j < incoming.len()
            invariant
                0 <= j <= incoming@.len(),
                strings_view(r@) == incoming_entries(incoming_view(incoming@).take(j as int), self.exit_labels()),
            decreases incoming@.len() - j,
        {
            let (block, value) = incoming[j];
            let ghost iv = incoming_view(incoming@);
            proof {
                assert(iv.take(j + 1).drop_last() =~= iv.take(j as int));
                assert(iv.take(j + 1).last() == (block.0, value.0));
            }
            match self.exits.get(&block.0) {
                Some(label) => {
                    let mut entry = String::new();
                    push_str(&mut entry, "[ %v");
                    push_decimal(&mut entry, value.0 as u128);
                    push_str(&mut entry, ", %");
                    push_str(&mut entry, label.as_str());
                    push_str(&mut entry, " ]");
                    assert(entry@ =~= phi_entry(value.0, self.exit_labels()[block.0]));
                    r.push(entry);
                    assert(strings_view(r@) =~= incoming_entries(iv.take(j + 1), self.exit_labels()));
                },
                None => {
                    assert(!self.exit_labels().contains_key(block.0));
                },
            }
            j += 1;
        }
        assert(incoming_view(incoming@).take(incoming@.len() as int) =~= incoming_view(incoming@));
        r
    }

    /// Inserts every pending Phi node into `text`, naming for each incoming
    /// edge the last LLVM block of its IR block. Nodes are inserted from the
    /// last recorded to the first, so earlier offsets stay where they were;
    /// existing text is never rewritten. Fails at the first node (in that
    /// order) that no emitted block leads to. Offsets are UTF-8 byte offsets
    /// and must fall on char boundaries.
    pub fn resolve(self, text: &mut String) -> (r: Result<(), String>)
        requires
            insertable(old(text)@, self.pending(), self.exit_labels()),
        ensures
            match resolved(old(text)@, self.pending(), self.exit_labels()) {
                Ok(t) => r is Ok && final(text)@ == t,
                Err((t, d)) => r matches Err(m) && m@ == no_predecessor_message(d) && final(text)@ == t,
            },
    {
        let ghost exits = self.exit_labels();
        let ghost all = self.pending();
        let mut i: usize = self.phis.len();
        assert(all.take(i as int) =~= all);
        while i > 0
            invariant
                0 <= i <= all.len(),
                all == self.pending(),
                exits == self.exit_labels(),
                resolved(old(text)@, all, exits) == resolved(text@, all.take(i as int), exits),
                insertable(text@, all.take(i as int), exits),
            decreases i,
        {
            let phi = &self.phis[i - 1];
            let ghost p = all[i - 1];
            assert(phi@ == p);
            assert(all.take(i as int).last() == p);
            assert(all.take(i as int).drop_last() =~= all.take(i - 1));
            let entries = self.entries(&phi.incoming);
            if entries.len() == 0 {
                let mut message = String::new();
                push_str(&mut message, "Phi %v");
                push_decimal(&mut message, phi.destination.0 as u128);
                push_str(&mut message, " has no reachable emitted predecessor");
                assert(message@ =~= no_predecessor_message(p.destination));
                return Err(message);
            }
            let joined_entries = join_entries(&entries);
            let d = decimal_string(phi.destination.0 as u128);
            let mut piece = String::new();
            let parts = ["  %v", d.as_str(), " = phi ", phi.ty.as_str(), " ", joined_entries.as_str()];
            push_line(&mut piece, &parts);
            assert(pieces(parts@) =~= seq!["  %v"@, d@, " = phi "@, p.ty, " "@, joined_entries@]);
            assert(piece@ =~= phi_text(p, incoming_entries(p.incoming, exits)));
            insert_text(text, phi.offset, piece.as_str());
            i -= 1;
        }
        Ok(())
    }
}

/// Every pending node has an incoming edge from an emitted block.
pub open spec fn all_reached(phis: Seq<PhiV>, exits: Map<u32, Seq<char>>) -> bool {
    forall|i: int| 0 <= i < phis.len() ==> incoming_entries(#[trigger] phis[i].incoming, exits).len() > 0
}

/// The nodes were recorded at non-decreasing byte offsets, each on a char
/// boundary of `text`.
pub open spec fn offsets_ordered(phis: Seq<PhiV>, text: Seq<char>) -> bool {
    &&& forall|i: int, j: int| 0 <= i <= j < phis.len() ==> #[trigger] phis[i].offset <= #[trigger] phis[j].offset
    &&& forall|i: int| 0 <= i < phis.len() ==> is_char_boundary(text, #[trigger] phis[i].offset)
}

/// `text` cut at each node's byte offset, with the node's line placed in the
/// cut.
pub open spec fn interleaved(text: Seq<char>, phis: Seq<PhiV>, exits: Map<u32, Seq<char>>) -> Seq<char>
    decreases phis.len(),
{
    if phis.len() == 0 {
        text
    } else {
        let p = phis.last();
        let k = boundary_index(text, p.offset);
        interleaved(text.take(k), phis.drop_last(), exits) + phi_text(p, incoming_entries(p.incoming, exits))
            + text.skip(k)
    }
}

/// A char boundary of `a` is one of `a + b`, at the same character index.
proof fn lemma_boundary_prefix(a: Seq<char>, b: Seq<char>, offset: nat)
    requires
        is_char_boundary(a, offset),
    ensures
        is_char_boundary(a + b, offset),
        boundary_index(a + b, offset) == boundary_index(a, offset),
{
    let k = boundary_index(a, offset);
    assert((a + b).take(k) =~= a.take(k));
    lemma_boundary_index(a + b, offset, k);
}

/// Insertions at offsets within `a` do not touch what follows `a`.
proof fn lemma_resolved_prefix(a: Seq<char>, b: Seq<char>, phis: Seq<PhiV>, exits: Map<u32, Seq<char>>)
    requires
        insertable(a, phis, exits),
    ensures
        insertable(a + b, phis, exits),
        match resolved(a, phis, exits) {
            Ok(t) => resolved(a + b, phis, exits) == Ok::<Seq<char>, (Seq<char>, u32)>(t + b),
            Err((t, d)) => resolved(a + b, phis, exits) == Err::<Seq<char>, (Seq<char>, u32)>((t + b, d)),
        },
    decreases phis.len(),
{
    if phis.len() > 0 {
        let p = phis.last();
        let entries = incoming_entries(p.incoming, exits);
        if entries.len() > 0 {
            let piece = phi_text(p, entries);
            lemma_boundary_prefix(a, b, p.offset);
            let k = boundary_index(a, p.offset);
            let a2 = insert_at_byte(a, p.offset, piece);
            assert(insert_at_byte(a + b, p.offset, piece) =~= a2 + b);
            lemma_resolved_prefix(a2, b, phis.drop_last(), exits);
        }
    }
}

/// Phi nodes recorded at non-decreasing byte offsets on char boundaries land
/// exactly where they were recorded: resolving inserts each node's line at
/// its own offset of the text as it stood and rewrites nothing of that text.
pub proof fn lemma_resolve_interleaves(text: Seq<char>, phis: Seq<PhiV>, exits: Map<u32, Seq<char>>)
    requires
        offsets_ordered(phis, text),
        all_reached(phis, exits),
    ensures
        insertable(text, phis, exits),
        resolved(text, phis, exits) == Ok::<Seq<char>, (Seq<char>, u32)>(interleaved(text, phis, exits)),
    decreases phis.len(),
{
    if phis.len() > 0 {
        let p = phis.last();
        let o = p.offset;
        assert(is_char_boundary(text, phis[phis.len() - 1].offset));
        let k = boundary_index(text, o);
        let entries = incoming_entries(p.incoming, exits);
        assert(entries.len() > 0) by {
            assert(phis[phis.len() - 1] == p);
        }
        let piece = phi_text(p, entries);
        let rest = phis.drop_last();
        let head = text.take(k);
        let tail = piece + text.skip(k);
        assert(insert_at_byte(text, o, piece) =~= head + tail);
        assert forall|i: int, j: int| 0 <= i <= j < rest.len() implies #[trigger] rest[i].offset
            <= #[trigger] rest[j].offset by {
            assert(rest[i] == phis[i] && rest[j] == phis[j]);
        }
        assert forall|i: int| 0 <= i < rest.len() implies is_char_boundary(head, #[trigger] rest[i].offset) by {
            assert(rest[i] == phis[i]);
            assert(phis[i].offset <= phis[phis.len() - 1].offset);
            assert(is_char_boundary(text, phis[i].offset));
            let ki = boundary_index(text, rest[i].offset);
            if ki > k {
                crate::text::lemma_byte_len_strict(text, k, ki);
            }
            assert(head.take(ki) =~= text.take(ki));
            lemma_boundary_index(head, rest[i].offset, ki);
        }
        assert forall|i: int| 0 <= i < rest.len() implies incoming_entries(#[trigger] rest[i].incoming, exits).len()
            > 0 by {
            assert(rest[i] == phis[i]);
        }
        lemma_resolve_interleaves(head, rest, exits);
        lemma_resolved_prefix(head, tail, rest, exits);
        assert(interleaved(head, rest, exits) + tail =~= interleaved(text, phis, exits));
    }
}

} // verus!
