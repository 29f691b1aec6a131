//! The layout of a register block: registers at their offsets, with the gaps
//! between them filled by reserved byte arrays of at most 32 bytes.

use vstd::prelude::*;
use crate::ast::{RegisterAst, RegisterView};
use crate::omap::{OffsetMap, keys_increasing};

verus! {

/// An item of a register block: the register at an entry of the table, or
/// a reserved gap of some bytes.
pub enum StructMatch {
    Reg(usize),
    Space(usize),
}

/// The model of an item: the entry's position, or the gap's length.
pub enum Slot {
    Reg(int),
    Space(nat),
}

impl View for StructMatch {
    type V = Slot;

    open spec fn view(&self) -> Slot {
        match self {
            StructMatch::Reg(i) => Slot::Reg(*i as int),
            StructMatch::Space(n) => Slot::Space(*n as nat),
        }
    }
}

/// Reserved gaps that fill `len` bytes: 32 bytes at a time, the rest last.
pub open spec fn spaces(len: nat) -> Seq<Slot>
    decreases len,
{
    if len == 0 {
        Seq::empty()
    } else if len > 32 {
        seq![Slot::Space(32)] + spaces((len - 32) as nat)
    } else {
        seq![Slot::Space(len)]
    }
}

/// The larger of two numbers.
pub open spec fn max(a: int, b: int) -> int {
    if a >= b { a } else { b }
}

/// The items for the entries of `es` from the `i`-th on, when `byte_idx`
/// bytes are already laid out: a gap up to an entry that starts later, then
/// the entry's register.
pub open spec fn layout_from(es: Seq<(usize, RegisterView)>, i: int, byte_idx: int) -> Seq<Slot>
    decreases es.len() - i,
{
    if i < 0 || i >= es.len() {
        Seq::empty()
    } else {
        let pos = es[i].0 as int;
        let pad = if pos > byte_idx { spaces((pos - byte_idx) as nat) } else { Seq::empty() };
        pad + seq![Slot::Reg(i)] + layout_from(es, i + 1, max(pos, byte_idx) + es[i].1.width)
    }
}

/// The bytes laid out once the entries from the `i`-th on are.
pub open spec fn layout_end(es: Seq<(usize, RegisterView)>, i: int, byte_idx: int) -> int
    decreases es.len() - i,
{
    if i < 0 || i >= es.len() {
        byte_idx
    } else {
        layout_end(es, i + 1, max(es[i].0 as int, byte_idx) + es[i].1.width)
    }
}

/// The items of a register block for the register table `es`.
pub open spec fn spec_layout(es: Seq<(usize, RegisterView)>) -> Seq<Slot> {
    layout_from(es, 0, 0)
}

pub(crate) proof fn lemma_layout_end_grows(es: Seq<(usize, RegisterView)>, i: int, byte_idx: int)
    requires
        0 <= i,
    ensures
        byte_idx <= layout_end(es, i, byte_idx),
        i < es.len() ==> max(es[i].0 as int, byte_idx) + es[i].1.width <= layout_end(es, i, byte_idx),
    decreases es.len() - i,
{
    if i < es.len() {
        lemma_layout_end_grows(es, i + 1, max(es[i].0 as int, byte_idx) + es[i].1.width);
    }
}

/// Lays out a register table: for each register in ascending order of
/// offset, reserved gaps of at most 32 bytes up to its offset where it
/// starts after what is laid out, then the register.
pub fn layout_registers(regmap: &OffsetMap<RegisterAst>) -> (regs: Vec<StructMatch>)
    requires
        layout_end(regmap@, 0, 0) <= usize::MAX,
    ensures
        regs@.map_values(|s: StructMatch| s@) == spec_layout(regmap@),
{
    let ghost es = regmap@;
    let n = regmap.len();
    let mut regs: Vec<StructMatch> = Vec::new();
    let mut byte_idx: usize = 0;
    let mut i: usize = 0;
    assert(regs@.map_values(|s: StructMatch| s@) =~= Seq::<Slot>::empty());
    while i < n
        invariant
            n == es.len(),
            es == regmap@,
            0 <= i <= n,
            layout_end(es, i as int, byte_idx as int) == layout_end(es, 0, 0),
            layout_end(es, 0, 0) <= usize::MAX,
            regs@.map_values(|s: StructMatch| s@) + layout_from(es, i as int, byte_idx as int) == spec_layout(es),
        decreases n - i,
    {
        let pos = regmap.key_at(i);
        let width = regmap.value_at(i).width;
        proof {
            lemma_layout_end_grows(es, i as int, byte_idx as int);
        }
        let ghost start = max(pos as int, byte_idx as int);
        let ghost tail = seq![Slot::Reg(i as int)] + layout_from(es, i + 1, start + width);
        assert(layout_from(es, i as int, byte_idx as int)
            == (if pos > byte_idx { spaces((pos - byte_idx) as nat) } else { Seq::empty() }) + tail);
        if pos > byte_idx {
            let mut len = pos - byte_idx;
            while len > 0
                invariant
                    byte_idx + len == pos,
                    regs@.map_values(|s: StructMatch| s@) + spaces(len as nat) + tail == spec_layout(es),
                decreases len,
            {
                let sub_len: usize = if len > 32 { 32 } else { len };
                let ghost before = regs@.map_values(|s: StructMatch| s@);
                regs.push(StructMatch::Space(sub_len));
                proof {
                    assert(regs@.map_values(|s: StructMatch| s@) =~= before.push(Slot::Space(sub_len as nat)));
                    let rest = if len > 32 { spaces((len - 32) as nat) } else { Seq::empty() };
                    assert(spaces(len as nat) == seq![Slot::Space(sub_len as nat)] + rest);
                    assert(before + spaces(len as nat) + tail =~= before.push(Slot::Space(sub_len as nat)) + rest + tail);
                    if len <= 32 {
                        assert(spaces(0) == Seq::<Slot>::empty());
                    }
                }
                byte_idx = byte_idx + sub_len;
                len = len - sub_len;
            }
            proof {
                assert(spaces(0) == Seq::<Slot>::empty());
            }
        } else {
            assert(Seq::<Slot>::empty() + tail == tail);
        }
        let ghost before = regs@.map_values(|s: StructMatch| s@);
        regs.push(StructMatch::Reg(i));
        proof {
            assert(regs@.map_values(|s: StructMatch| s@) =~= before.push(Slot::Reg(i as int)));
            assert(before + tail =~= before.push(Slot::Reg(i as int)) + layout_from(es, i + 1, start + width));
        }
        byte_idx = byte_idx + width;
        i = i + 1;
    }
    assert(layout_from(es, n as int, byte_idx as int) == Seq::<Slot>::empty());
    assert(regs@.map_values(|s: StructMatch| s@) + Seq::<Slot>::empty() == regs@.map_values(|s: StructMatch| s@));
    regs
}


/// The bytes an item takes: a gap its length, a register its width.
pub open spec fn slot_len(es: Seq<(usize, RegisterView)>, s: Slot) -> int {
    match s {
        Slot::Space(n) => n as int,
        Slot::Reg(i) => es[i].1.width as int,
    }
}

/// The bytes that the items `ss` take together.
pub open spec fn slots_len(es: Seq<(usize, RegisterView)>, ss: Seq<Slot>) -> int
    decreases ss.len(),
{
    if ss.len() == 0 {
        0
    } else {
        slots_len(es, ss.drop_last()) + slot_len(es, ss.last())
    }
}

/// Whether each register of the table ends before the next one starts.
pub open spec fn registers_disjoint(es: Seq<(usize, RegisterView)>) -> bool {
    forall|i: int| 0 <= i < es.len() - 1 ==> #[trigger] es[i].0 + es[i].1.width <= es[i + 1].0
}

proof fn lemma_slots_len_concat(es: Seq<(usize, RegisterView)>, a: Seq<Slot>, b: Seq<Slot>)
    ensures
        slots_len(es, a + b) == slots_len(es, a) + slots_len(es, b),
    decreases b.len(),
{
    if b.len() == 0 {
        assert(a + b == a);
    } else {
        lemma_slots_len_concat(es, a, b.drop_last());
        assert((a + b).drop_last() == a + b.drop_last());
    }
}

proof fn lemma_spaces(es: Seq<(usize, RegisterView)>, len: nat)
    ensures
        slots_len(es, spaces(len)) == len,
        forall|k: int| 0 <= k < spaces(len).len() ==> ((#[trigger] spaces(len)[k]) matches Slot::Space(n) && 1 <= n <= 32),
    decreases len,
{
    if len > 32 {
        lemma_spaces(es, (len - 32) as nat);
        lemma_slots_len_concat(es, seq![Slot::Space(32)], spaces((len - 32) as nat));
        assert(slots_len(es, seq![Slot::Space(32)]) == 32) by {
            assert(seq![Slot::Space(32)].drop_last() == Seq::<Slot>::empty());
            assert(slots_len(es, Seq::<Slot>::empty()) == 0);
            assert(seq![Slot::Space(32)].last() == Slot::Space(32));
        }
        let s = spaces(len);
        assert forall|k: int| 0 <= k < s.len() implies ((#[trigger] s[k]) matches Slot::Space(n) && 1 <= n <= 32) by {
            if k > 0 {
                assert(s[k] == spaces((len - 32) as nat)[k - 1]);
            }
        }
    } else if len > 0 {
        assert(seq![Slot::Space(len)].drop_last() == Seq::<Slot>::empty());
        assert(slots_len(es, Seq::<Slot>::empty()) == 0);
        assert(seq![Slot::Space(len)].last() == Slot::Space(len));
    }
}

proof fn lemma_layout_from_offsets(es: Seq<(usize, RegisterView)>, i: int, b: int)
    requires
        0 <= i,
        keys_increasing(es),
        registers_disjoint(es),
        i < es.len() ==> b <= es[i].0,
    ensures
        forall|k: int| 0 <= k < layout_from(es, i, b).len() ==> (#[trigger] layout_from(es, i, b)[k] matches Slot::Reg(j)
            ==> i <= j < es.len() && b + slots_len(es, layout_from(es, i, b).take(k)) == es[j].0),
        forall|k: int| 0 <= k < layout_from(es, i, b).len() ==> (#[trigger] layout_from(es, i, b)[k] matches Slot::Space(n)
            ==> 1 <= n <= 32),
        forall|j: int| i <= j < es.len() ==> #[trigger] layout_from(es, i, b).contains(Slot::Reg(j)),
    decreases es.len() - i,
{
    if i < es.len() {
        let pos = es[i].0 as int;
        let pad = if pos > b { spaces((pos - b) as nat) } else { Seq::empty() };
        let nb = max(pos, b) + es[i].1.width;
        let rest = layout_from(es, i + 1, nb);
        let l = layout_from(es, i, b);
        assert(l == pad + seq![Slot::Reg(i)] + rest);
        if i + 1 < es.len() {
            assert(es[i].0 + es[i].1.width <= es[i + 1].0);
        }
        lemma_layout_from_offsets(es, i + 1, nb);
        lemma_spaces(es, (pos - b) as nat);
        assert(slots_len(es, pad) == pos - b) by {
            if pos <= b {
                assert(pad.len() == 0);
            }
        }
        assert forall|k: int| 0 <= k < l.len() implies (#[trigger] l[k] matches Slot::Reg(j)
            ==> i <= j < es.len() && b + slots_len(es, l.take(k)) == es[j].0) by {
            if k < pad.len() {
                assert(l[k] == pad[k]);
            } else if k == pad.len() {
                assert(l.take(k) == pad);
            } else {
                let k2 = k - pad.len() - 1;
                assert(l[k] == rest[k2]);
                assert(l.take(k) == (pad + seq![Slot::Reg(i)]) + rest.take(k2));
                lemma_slots_len_concat(es, pad + seq![Slot::Reg(i)], rest.take(k2));
                lemma_slots_len_concat(es, pad, seq![Slot::Reg(i)]);
                assert(slots_len(es, seq![Slot::Reg(i)]) == es[i].1.width) by {
                    assert(seq![Slot::Reg(i)].drop_last() == Seq::<Slot>::empty());
                    assert(slots_len(es, Seq::<Slot>::empty()) == 0);
                }
            }
        }
        assert forall|k: int| 0 <= k < l.len() implies (#[trigger] l[k] matches Slot::Space(n) ==> 1 <= n <= 32) by {
            if k < pad.len() {
                assert(l[k] == pad[k]);
            } else if k > pad.len() {
                assert(l[k] == rest[k - pad.len() - 1]);
            }
        }
        assert forall|j: int| i <= j < es.len() implies #[trigger] l.contains(Slot::Reg(j)) by {
            if j == i {
                assert(l[pad.len() as int] == Slot::Reg(i));
                assert(l.contains(Slot::Reg(i)));
            } else {
                assert(rest.contains(Slot::Reg(j)));
                let k = choose|k: int| 0 <= k < rest.len() && rest[k] == Slot::Reg(j);
                assert(l[pad.len() + 1 + k] == rest[k]);
            }
        }
    }
}

/// The layout of a table of registers in ascending order of offset, each of
/// which ends before the next starts, puts every register at its offset:
/// the items before it take exactly as many bytes. Every register has its
/// item, and every gap takes 1 to 32 bytes.
pub proof fn lemma_layout_offsets(es: Seq<(usize, RegisterView)>)
    requires
        keys_increasing(es),
        registers_disjoint(es),
    ensures
        forall|k: int| 0 <= k < spec_layout(es).len() ==> (#[trigger] spec_layout(es)[k] matches Slot::Reg(j)
            ==> 0 <= j < es.len() && slots_len(es, spec_layout(es).take(k)) == es[j].0),
        forall|k: int| 0 <= k < spec_layout(es).len() ==> (#[trigger] spec_layout(es)[k] matches Slot::Space(n)
            ==> 1 <= n <= 32),
        forall|j: int| 0 <= j < es.len() ==> #[trigger] spec_layout(es).contains(Slot::Reg(j)),
{
    lemma_layout_from_offsets(es, 0, 0);
}


/// Every register item of a layout names an entry of the table.
pub proof fn lemma_layout_indices(es: Seq<(usize, RegisterView)>, i: int, b: int)
    requires
        0 <= i,
    ensures
        forall|k: int| 0 <= k < layout_from(es, i, b).len() ==> (#[trigger] layout_from(es, i, b)[k] matches Slot::Reg(j)
            ==> i <= j < es.len()),
    decreases es.len() - i,
{
    if i < es.len() {
        let pos = es[i].0 as int;
        let pad = if pos > b { spaces((pos - b) as nat) } else { Seq::empty() };
        let nb = max(pos, b) + es[i].1.width;
        let rest = layout_from(es, i + 1, nb);
        let l = layout_from(es, i, b);
        lemma_layout_indices(es, i + 1, nb);
        lemma_spaces(es, (pos - b) as nat);
        assert forall|k: int| 0 <= k < l.len() implies (#[trigger] l[k] matches Slot::Reg(j) ==> i <= j < es.len()) by {
            if k < pad.len() {
                assert(l[k] == pad[k]);
            } else if k > pad.len() {
                assert(l[k] == rest[k - pad.len() - 1]);
            }
        }
    }
}


/// Whether a register table can be laid out within the address space, as
/// `layout_registers` needs.
pub fn layout_fits(regmap: &OffsetMap<RegisterAst>) -> (r: bool)
    ensures
        r == (layout_end(regmap@, 0, 0) <= usize::MAX),
{
    let ghost es = regmap@;
    let n = regmap.len();
    let mut byte_idx: usize = 0;
    let mut i: usize = 0;
    while i < n
        invariant
            n == es.len(),
            es == regmap@,
            0 <= i <= n,
            layout_end(es, i as int, byte_idx as int) == layout_end(es, 0, 0),
        decreases n - i,
    {
        let pos = regmap.key_at(i);
        let width = regmap.value_at(i).width;
        let start = if pos > byte_idx { pos } else { byte_idx };
        if width > usize::MAX - start {
            proof {
                lemma_layout_end_grows(es, i as int, byte_idx as int);
            }
            return false;
        }
        byte_idx = start + width;
        i = i + 1;
    }
    true
}

} // verus!
