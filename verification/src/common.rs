//! From the SVD device description to the peripheral AST.

use vstd::prelude::*;
use crate::device::{EnumeratedValue, Field, Fields, Register, Device, Peripheral};
use crate::text::{
    alphabetic, uppercase, spec_is_whitespace, digit_of, push_char, char_is_alphabetic,
    char_to_uppercase, is_whitespace, is_digit, spec_parse_usize, parse_usize, parse_usize_from,
    spec_replace, replace, spec_decimal, decimal,
};
use crate::ast::{
    FieldAst, FieldView, RegisterAst, RegisterView, enum_view, PeripheralAst, PeripheralView,
    RegList, RegListView, Cluster as AstCluster, ClusterView, opt_string_view, clone_opt_string, peripherals_view,
};
use crate::device::Cluster;
use crate::omap::{OffsetMap, spec_insert, keys_increasing};

verus! {

/// The upper case of a character as one character: the one character that
/// its upper-case mapping gives, or the character itself where the mapping
/// gives several.
pub open spec fn upper_char(c: char) -> char {
    if uppercase(c).len() == 1 {
        uppercase(c)[0]
    } else {
        c
    }
}

/// The name that the characters `s` give, built on `out`: every run of
/// characters other than white space starts a new `_`-led word, every
/// character is upper-cased (see `upper_char`), `-` becomes `_`, and a name that would begin
/// with a hex digit begins with `USE` instead.
pub open spec fn nice_name(s: Seq<char>, out: Seq<char>, camel: bool) -> Seq<char>
    decreases s.len(),
{
    if s.len() == 0 {
        out
    } else {
        let a0 = s[0];
        let out1 = if out.len() == 0 && digit_of(a0, 16) is Some { out + seq!['U', 'S', 'E'] } else { out };
        let a = if a0 == '-' { '_' } else { a0 };
        if !spec_is_whitespace(a) {
            nice_name(s.drop_first(), (if camel { out1.push('_') } else { out1 }).push(upper_char(a)), false)
        } else {
            nice_name(s.drop_first(), out1, true)
        }
    }
}

/// The label of a named value: its name, unless the name does not begin with
/// a letter and a description is given, in which case the label is built from
/// the description.
pub open spec fn spec_make_nice_enum(val: EnumeratedValue) -> Seq<char> {
    match val.description {
        None => val.name@,
        Some(desc) => if !alphabetic(val.name@[0]) { nice_name(desc@, seq![], true) } else { val.name@ },
    }
}

/// Whether a label is built from the value's description.
pub open spec fn nice_enum_renames(val: EnumeratedValue) -> bool {
    val.description is Some && !alphabetic(val.name@[0])
}

/// A built name that is not empty begins with `U` (of `USE`) or `_`.
pub proof fn lemma_nice_name_start(s: Seq<char>, out: Seq<char>, camel: bool)
    requires
        out.len() == 0 ==> camel,
        out.len() > 0 ==> out[0] == 'U' || out[0] == '_',
    ensures
        nice_name(s, out, camel).len() > 0 ==> nice_name(s, out, camel)[0] == 'U' || nice_name(s, out, camel)[0] == '_',
    decreases s.len(),
{
    if s.len() > 0 {
        let a0 = s[0];
        let out1 = if out.len() == 0 && digit_of(a0, 16) is Some { out + seq!['U', 'S', 'E'] } else { out };
        let a = if a0 == '-' { '_' } else { a0 };
        if !spec_is_whitespace(a) {
            let out2 = (if camel { out1.push('_') } else { out1 }).push(upper_char(a));
            assert(out2.len() > 0);
            assert(out2[0] == 'U' || out2[0] == '_');
            lemma_nice_name_start(s.drop_first(), out2, false);
        } else {
            if out1.len() > 0 {
                assert(out1[0] == 'U' || out1[0] == '_');
            }
            lemma_nice_name_start(s.drop_first(), out1, true);
        }
    }
}

/// Gives a named value a label that can begin an identifier: where the name
/// does not begin with a letter and a description is given, the label is
/// built from the description (see `nice_name`); it then begins with `U` or `_`.
pub fn make_nice_enum(val: &EnumeratedValue) -> (r: String)
    requires
        val.description is Some ==> val.name@.len() > 0,
    ensures
        r@ == spec_make_nice_enum(*val),
        nice_enum_renames(*val) && r@.len() > 0 ==> r@[0] == 'U' || r@[0] == '_',
{
    let label = val.name.clone();
    match &val.description {
        None => label,
        Some(desc) => {
            if !char_is_alphabetic(label.as_str().get_char(0)) {
                let mut out = String::new();
                let mut camel: bool = true;
                let d = desc.as_str();
                let n = d.unicode_len();
                let mut i: usize = 0;
                assert(d@.skip(0) == d@);
                while i < n
                    invariant
                        n == d@.len(),
                        0 <= i <= n,
                        nice_name(d@.skip(i as int), out@, camel) == nice_name(d@, seq![], true),
                        out@.len() == 0 ==> camel,
                        out@.len() > 0 ==> out@[0] == 'U' || out@[0] == '_',
                    decreases n - i,
                {
                    let ghost rest = d@.skip(i as int);
                    let ghost out0 = out@;
                    let ghost camel0 = camel;
                    let mut a = d.get_char(i);
                    let ghost a0 = a;
                    proof {
                        assert(rest[0] == a);
                        assert(rest.drop_first() == d@.skip(i + 1));
                    }
                    if out.as_str().unicode_len() == 0 && is_digit(a, 16) {
                        out.append("USE");
                        proof {
                            reveal_strlit("USE");
                            assert(out@ =~= out0 + seq!['U', 'S', 'E']);
                        }
                    }
                    let ghost out1 = out@;
                    assert(out1 == (if out0.len() == 0 && digit_of(a0, 16) is Some { out0 + seq!['U', 'S', 'E'] } else { out0 }));
                    if a == '-' {
                        a = '_';
                    }
                    if !is_whitespace(a) {
                        if camel {
                            push_char(&mut out, '_');
                        }
                        let up = char_to_uppercase(a);
                        let c = if up.len() == 1 { up[0] } else { a };
                        push_char(&mut out, c);
                        camel = false;
                        assert(out@ == (if camel0 { out1.push('_') } else { out1 }).push(upper_char(a)));
                    } else {
                        camel = true;
                    }
                    assert(nice_name(rest, out0, camel0) == nice_name(rest.drop_first(), out@, camel));
                    i = i + 1;
                }
                assert(d@.skip(n as int) =~= Seq::<char>::empty());
                return out;
            }
            label
        }
    }
}


/// Whether `c` is an ASCII character, one byte long in UTF-8.
pub open spec fn is_ascii_char(c: char) -> bool {
    (c as u32) < 0x80
}

/// The number that a named value's text gives: hex after its first two
/// characters where the text holds an `x`, decimal otherwise. `None` where
/// the text is no such number, a value that `gen_regs` does not accept.
pub open spec fn spec_enum_value(s: Seq<char>) -> Option<usize> {
    if s.contains('x') {
        if s.len() >= 2 && is_ascii_char(s[0]) && is_ascii_char(s[1]) {
            spec_parse_usize(s.skip(2), 16)
        } else {
            None
        }
    } else {
        spec_parse_usize(s, 10)
    }
}

/// Reads the number of a named value, as `spec_enum_value` says.
pub fn enum_value(s: &str) -> (r: Option<usize>)
    ensures
        r == spec_enum_value(s@),
{
    let n = s.unicode_len();
    let mut i: usize = 0;
    let mut has_x = false;
    while i < n
        invariant
            n == s@.len(),
            0 <= i <= n,
            has_x == (exists|j: int| 0 <= j < i && s@[j] == 'x'),
        decreases n - i,
    {
        if s.get_char(i) == 'x' {
            has_x = true;
        }
        i = i + 1;
    }
    proof {
        if has_x {
            let j = choose|j: int| 0 <= j < n && s@[j] == 'x';
            assert(s@.contains('x'));
        } else {
            assert(!s@.contains('x'));
        }
    }
    if has_x {
        if n >= 2 && (s.get_char(0) as u32) < 0x80 && (s.get_char(1) as u32) < 0x80 {
            parse_usize_from(s, 2, 16)
        } else {
            None
        }
    } else {
        parse_usize(s, 10)
    }
}

/// The entries of `m` after each entry of `es` is stored in it, first to last.
pub open spec fn insert_all<T>(m: Seq<(usize, T)>, es: Seq<(usize, T)>) -> Seq<(usize, T)>
    decreases es.len(),
{
    if es.len() == 0 {
        m
    } else {
        spec_insert(insert_all(m, es.drop_last()), es.last().0, es.last().1)
    }
}

pub(crate) proof fn lemma_insert_all_push<T>(m: Seq<(usize, T)>, es: Seq<(usize, T)>, e: (usize, T))
    ensures
        insert_all(m, es.push(e)) == spec_insert(insert_all(m, es), e.0, e.1),
{
    assert(es.push(e).drop_last() == es);
}

proof fn lemma_spec_insert_entries<T>(s: Seq<(usize, T)>, key: usize, v: T, k: int)
    requires
        0 <= k < spec_insert(s, key, v).len(),
    ensures
        s.contains(spec_insert(s, key, v)[k]) || spec_insert(s, key, v)[k] == (key, v),
    decreases s.len(),
{
    let r = spec_insert(s, key, v);
    if s.len() == 0 {
    } else if key < s[0].0 {
        if k > 0 {
            assert(r[k] == s[k - 1]);
        }
    } else if key == s[0].0 {
        if k > 0 {
            assert(r[k] == s.drop_first()[k - 1]);
            assert(s[k] == s.drop_first()[k - 1]);
        }
    } else {
        if k > 0 {
            let t = s.drop_first();
            assert(r[k] == spec_insert(t, key, v)[k - 1]);
            lemma_spec_insert_entries(t, key, v, k - 1);
            if t.contains(r[k]) {
                let q = choose|q: int| 0 <= q < t.len() && t[q] == r[k];
                assert(s[q + 1] == r[k]);
            }
        } else {
            assert(s[0] == r[0]);
        }
    }
}

proof fn lemma_insert_all_entries<T>(m: Seq<(usize, T)>, es: Seq<(usize, T)>, k: int)
    requires
        0 <= k < insert_all(m, es).len(),
    ensures
        m.contains(insert_all(m, es)[k]) || es.contains(insert_all(m, es)[k]),
    decreases es.len(),
{
    if es.len() > 0 {
        let prev = insert_all(m, es.drop_last());
        let x = insert_all(m, es)[k];
        lemma_spec_insert_entries(prev, es.last().0, es.last().1, k);
        if prev.contains(x) {
            let q = choose|q: int| 0 <= q < prev.len() && prev[q] == x;
            lemma_insert_all_entries(m, es.drop_last(), q);
            if es.drop_last().contains(x) {
                let q2 = choose|q2: int| 0 <= q2 < es.drop_last().len() && es.drop_last()[q2] == x;
                assert(es[q2] == x);
            }
        } else {
            assert(es[es.len() - 1] == x);
        }
    }
}

/// Whether the named values of a field can all be read.
pub open spec fn enum_values_ok(f: Field) -> bool {
    f.enumeratedValues matches Some(ev) ==> forall|k: int| 0 <= k < ev.enumeratedValue@.len() ==> {
        let v = #[trigger] ev.enumeratedValue@[k];
        &&& (v.description is Some ==> v.name@.len() > 0)
        &&& spec_enum_value(v.value@) is Some
    }
}

/// The AST model of a field.
pub open spec fn field_view(f: Field) -> FieldView {
    FieldView {
        name: f.name@,
        width: f.bitWidth,
        enumerate: match f.enumeratedValues {
            None => None,
            Some(ev) => Some(ev.enumeratedValue@.map_values(
                |v: EnumeratedValue| (spec_make_nice_enum(v), spec_enum_value(v.value@).unwrap()),
            )),
        },
    }
}

/// The field table of a register: each field under its bit offset, in the
/// order the register lists them.
pub open spec fn spec_field_map(r: Register) -> Seq<(usize, FieldView)> {
    match r.fields {
        None => Seq::empty(),
        Some(fs) => insert_all(Seq::empty(), fs.field@.map_values(|f: Field| (f.bitOffset, field_view(f)))),
    }
}

/// The number of registers that `r` stands for.
pub open spec fn reg_count(r: Register) -> nat {
    match r.dim {
        Some(d) => d as nat,
        None => 1,
    }
}

/// The distance in bytes between the registers that `r` stands for.
pub open spec fn reg_increment(r: Register) -> u32 {
    match r.dimIncrement {
        Some(d) => d,
        None => 0,
    }
}

/// The AST model of the `i`-th register that `r` stands for: `%s` in its name
/// becomes `i`, its width is in bytes.
pub open spec fn register_view_at(r: Register, i: nat) -> RegisterView {
    RegisterView {
        name: spec_replace(r.name@, seq!['%', 's'], spec_decimal(i)),
        fields: spec_field_map(r),
        width: (match r.size { Some(s) => s, None => 0usize }) / 8,
        dim: match r.dim {
            Some(d) => Some((d, r.dimIncrement.unwrap())),
            None => None,
        },
    }
}

/// The byte offset of the `i`-th register that `r` stands for.
pub open spec fn register_offset(r: Register, i: nat) -> usize {
    (r.addressOffset + reg_increment(r) * i) as usize
}

/// The entries, offset and model, of the registers that `r` stands for.
pub open spec fn register_entries(r: Register) -> Seq<(usize, RegisterView)> {
    Seq::new(reg_count(r), |i: int| (register_offset(r, i as nat), register_view_at(r, i as nat)))
}

/// The entries of all registers of `rs`, in order.
pub open spec fn all_register_entries(rs: Seq<Register>) -> Seq<(usize, RegisterView)>
    decreases rs.len(),
{
    if rs.len() == 0 {
        Seq::empty()
    } else {
        all_register_entries(rs.drop_last()) + register_entries(rs.last())
    }
}

/// The register table of a list of registers: every register under its
/// offset, a later one in place of an earlier one at the same offset.
pub open spec fn spec_gen_regs(rs: Seq<Register>) -> Seq<(usize, RegisterView)> {
    insert_all(Seq::empty(), all_register_entries(rs))
}

/// Each field of a register's field table is the model of one of the
/// register's fields (see `field_view`: its name, its width, and its named
/// values, in order, each labelled as `make_nice_enum` labels it and
/// numbered as `enum_value` reads it), under that field's bit offset.
pub proof fn lemma_field_map_entries(r: Register, k: int)
    requires
        0 <= k < spec_field_map(r).len(),
    ensures
        exists|f: Field| #![trigger field_view(f)]
            (r.fields matches Some(fs) && fs.field@.contains(f)) && spec_field_map(r)[k] == (f.bitOffset, field_view(f)),
{
    match r.fields {
        None => {},
        Some(fs) => {
            let es = fs.field@.map_values(|f: Field| (f.bitOffset, field_view(f)));
            lemma_insert_all_entries(Seq::empty(), es, k);
            let x = spec_field_map(r)[k];
            let q = choose|q: int| 0 <= q < es.len() && es[q] == x;
            let f = fs.field@[q];
            assert(fs.field@.contains(f));
            assert(x == (f.bitOffset, field_view(f)));
        },
    }
}

proof fn lemma_all_entries_from(rs: Seq<Register>, x: (usize, RegisterView))
    requires
        all_register_entries(rs).contains(x),
    ensures
        exists|j: int, n: int| #![trigger register_view_at(rs[j], n as nat)] 0 <= j < rs.len() && 0 <= n < reg_count(rs[j])
            && x == (register_offset(rs[j], n as nat), register_view_at(rs[j], n as nat)),
    decreases rs.len(),
{
    let prev = all_register_entries(rs.drop_last());
    let last = register_entries(rs.last());
    assert(all_register_entries(rs) == prev + last);
    let q = choose|q: int| 0 <= q < (prev + last).len() && (prev + last)[q] == x;
    if q < prev.len() {
        assert(prev[q] == x);
        lemma_all_entries_from(rs.drop_last(), x);
        let (j, n) = choose|j: int, n: int| #![trigger register_view_at(rs.drop_last()[j], n as nat)] 0 <= j < rs.drop_last().len() && 0 <= n < reg_count(rs.drop_last()[j])
            && x == (register_offset(rs.drop_last()[j], n as nat), register_view_at(rs.drop_last()[j], n as nat));
        assert(rs[j] == rs.drop_last()[j]);
    } else {
        let n = q - prev.len();
        assert(last[n] == x);
        assert(rs[rs.len() - 1] == rs.last());
    }
}

/// Each register that `gen_regs` gives is the `n`-th register that one of
/// the listed registers stands for (see `register_view_at`), under its
/// offset (see `register_offset`).
pub proof fn lemma_gen_regs_entries(rs: Seq<Register>, k: int)
    requires
        0 <= k < spec_gen_regs(rs).len(),
    ensures
        exists|j: int, n: int| #![trigger register_view_at(rs[j], n as nat)] 0 <= j < rs.len() && 0 <= n < reg_count(rs[j])
            && spec_gen_regs(rs)[k] == (register_offset(rs[j], n as nat), register_view_at(rs[j], n as nat)),
{
    lemma_insert_all_entries(Seq::empty(), all_register_entries(rs), k);
    lemma_all_entries_from(rs, spec_gen_regs(rs)[k]);
}

proof fn lemma_insert_after_all<T>(s: Seq<(usize, T)>, k: usize, v: T)
    requires
        forall|j: int| 0 <= j < s.len() ==> #[trigger] s[j].0 < k,
    ensures
        spec_insert(s, k, v) == s.push((k, v)),
    decreases s.len(),
{
    if s.len() > 0 {
        let t = s.drop_first();
        assert forall|j: int| 0 <= j < t.len() implies #[trigger] t[j].0 < k by {
            assert(t[j] == s[j + 1]);
        }
        lemma_insert_after_all(t, k, v);
        assert(seq![s[0]] + t.push((k, v)) =~= s.push((k, v)));
    }
}

proof fn lemma_insert_all_increasing<T>(es: Seq<(usize, T)>)
    requires
        keys_increasing(es),
    ensures
        insert_all(Seq::empty(), es) == es,
    decreases es.len(),
{
    if es.len() > 0 {
        let d = es.drop_last();
        assert forall|a: int, b: int| 0 <= a < b < d.len() implies #[trigger] d[a].0 < #[trigger] d[b].0 by {
            assert(d[a] == es[a] && d[b] == es[b]);
        }
        lemma_insert_all_increasing(d);
        assert forall|j: int| 0 <= j < d.len() implies #[trigger] d[j].0 < es.last().0 by {
            assert(d[j] == es[j]);
            assert(es[j].0 < es[es.len() - 1].0);
        }
        lemma_insert_after_all(d, es.last().0, es.last().1);
        assert(d.push((es.last().0, es.last().1)) =~= es);
    }
}

/// A register array of `n` elements `d > 0` bytes apart gives `n`
/// registers: the `i`-th at the array's offset plus `i * d`, with `%s` in
/// its name replaced by `i`.
pub proof fn lemma_gen_regs_array(r: Register, i: int)
    requires
        r.dim matches Some(n) && 0 <= i < n,
        r.dimIncrement matches Some(d) && d > 0,
        register_ok(r),
    ensures
        spec_gen_regs(seq![r]).len() == r.dim.unwrap(),
        spec_gen_regs(seq![r])[i].0 == r.addressOffset + i * r.dimIncrement.unwrap(),
        spec_gen_regs(seq![r])[i].1.name == spec_replace(r.name@, seq!['%', 's'], spec_decimal(i as nat)),
{
    let n = r.dim.unwrap() as int;
    let d = r.dimIncrement.unwrap() as int;
    let es = register_entries(r);
    assert(seq![r].drop_last() =~= Seq::<Register>::empty());
    assert(seq![r].last() == r);
    assert(all_register_entries(Seq::<Register>::empty()) == Seq::<(usize, RegisterView)>::empty());
    assert(all_register_entries(seq![r]) =~= es);
    assert(reg_count(r) == n && reg_increment(r) == d);
    assert(r.addressOffset + d * (n - 1) <= u32::MAX);
    assert forall|j: int| 0 <= j < n implies #[trigger] es[j].0 == r.addressOffset + j * d by {
        assert(d * j <= d * (n - 1)) by (nonlinear_arith)
            requires
                0 <= j <= n - 1,
                d >= 0,
        ;
        assert(d * j == j * d) by (nonlinear_arith);
        assert(es[j].0 == register_offset(r, j as nat));
    }
    assert forall|a: int, b: int| 0 <= a < b < es.len() implies #[trigger] es[a].0 < #[trigger] es[b].0 by {
        assert(es[a].0 == r.addressOffset + a * d);
        assert(es[b].0 == r.addressOffset + b * d);
        assert(a * d < b * d) by (nonlinear_arith)
            requires
                0 <= a < b,
                d > 0,
        ;
    }
    lemma_insert_all_increasing(es);
    assert(es[i].0 == r.addressOffset + i * d);
}

/// Whether a register can be turned into AST entries: an array has its
/// increment, its offsets fit in 32 bits, and its named values can be read.
pub open spec fn register_ok(r: Register) -> bool {
    reg_count(r) > 0 ==> {
        &&& (r.dim is Some ==> r.dimIncrement is Some)
        &&& r.addressOffset + reg_increment(r) * (reg_count(r) - 1) <= u32::MAX
        &&& (r.fields matches Some(fs) ==> forall|j: int| 0 <= j < fs.field@.len() ==> enum_values_ok(#[trigger] fs.field@[j]))
    }
}

/// Whether every register of `rs` can be turned into AST entries.
pub open spec fn registers_ok(rs: Seq<Register>) -> bool {
    forall|i: int| 0 <= i < rs.len() ==> register_ok(#[trigger] rs[i])
}

fn gen_enum(f: &Field) -> (r: Option<Vec<(String, usize)>>)
    requires
        enum_values_ok(*f),
    ensures
        enum_view(r) == field_view(*f).enumerate,
{
    match &f.enumeratedValues {
        None => None,
        Some(enum_vals) => {
            let mut enummap: Vec<(String, usize)> = Vec::new();
            let vals = &enum_vals.enumeratedValue;
            let mut k: usize = 0;
            while k < vals.len()
                invariant
                    0 <= k <= vals@.len(),
                    enum_values_ok(*f),
                    f.enumeratedValues == Some(*enum_vals),
                    vals@ == enum_vals.enumeratedValue@,
                    enummap@.len() == k,
                    forall|j: int| 0 <= j < k ==> (#[trigger] enummap@[j]).0@ == spec_make_nice_enum(vals@[j])
                        && enummap@[j].1 == spec_enum_value(vals@[j].value@).unwrap(),
                decreases vals@.len() - k,
            {
                let val = &vals[k];
                assert(enum_vals.enumeratedValue@[k as int] == *val);
                let printname = make_nice_enum(val);
                let v = enum_value(val.value.as_str());
                enummap.push((printname, v.unwrap()));
                k = k + 1;
            }
            let r = Some(enummap);
            assert(enum_view(r).unwrap() =~= field_view(*f).enumerate.unwrap());
            r
        }
    }
}

fn gen_fields(fields: &Fields) -> (m: OffsetMap<FieldAst>)
    requires
        forall|j: int| 0 <= j < fields.field@.len() ==> enum_values_ok(#[trigger] fields.field@[j]),
    ensures
        m.wf(),
        m@ == insert_all(Seq::empty(), fields.field@.map_values(|f: Field| (f.bitOffset, field_view(f)))),
{
    let ghost es = fields.field@.map_values(|f: Field| (f.bitOffset, field_view(f)));
    let mut fieldmap: OffsetMap<FieldAst> = OffsetMap::new();
    let mut j: usize = 0;
    assert(es.take(0) =~= Seq::<(usize, FieldView)>::empty());
    while j < fields.field.len()
        invariant
            0 <= j <= fields.field@.len(),
            es == fields.field@.map_values(|f: Field| (f.bitOffset, field_view(f))),
            forall|i: int| 0 <= i < fields.field@.len() ==> enum_values_ok(#[trigger] fields.field@[i]),
            fieldmap.wf(),
            fieldmap@ == insert_all(Seq::empty(), es.take(j as int)),
        decreases fields.field@.len() - j,
    {
        let field = &fields.field[j];
        assert(fields.field@[j as int] == *field);
        let enummapopt = gen_enum(field);
        let ast = FieldAst { name: field.name.clone(), width: field.bitWidth, enumerate: enummapopt };
        fieldmap.insert(field.bitOffset, ast);
        proof {
            assert(es.take(j + 1) == es.take(j as int).push(es[j as int]));
            lemma_insert_all_push(Seq::empty(), es.take(j as int), es[j as int]);
        }
        j = j + 1;
    }
    assert(es.take(j as int) == es);
    fieldmap
}

/// Turns a list of registers into a register table: each register, and each
/// element of a register array, under its byte offset, with its fields under
/// their bit offsets.
pub fn gen_regs(registers: &Vec<Register>) -> (m: OffsetMap<RegisterAst>)
    requires
        registers_ok(registers@),
    ensures
        m.wf(),
        m@ == spec_gen_regs(registers@),
{
    let mut regmap: OffsetMap<RegisterAst> = OffsetMap::new();
    let mut ri: usize = 0;
    assert(registers@.take(0) =~= Seq::<Register>::empty());
    while ri < registers.len()
        invariant
            0 <= ri <= registers@.len(),
            registers_ok(registers@),
            regmap.wf(),
            regmap@ == insert_all(Seq::empty(), all_register_entries(registers@.take(ri as int))),
        decreases registers@.len() - ri,
    {
        let register = &registers[ri];
        assert(registers@[ri as int] == *register);
        assert(register_ok(*register));
        let dim = match register.dim { Some(d) => d, None => 1u32 };
        let dim_increment = match register.dimIncrement { Some(d) => d, None => 0u32 };
        let ghost prev = all_register_entries(registers@.take(ri as int));
        let ghost es = register_entries(*register);
        assert(registers@.take(ri + 1).drop_last() == registers@.take(ri as int));
        assert(all_register_entries(registers@.take(ri + 1)) == prev + es);
        let mut dim_i: u32 = 0;
        assert(prev + es.take(0) =~= prev);
        while dim_i < dim
            invariant
                0 <= dim_i <= dim,
                dim == reg_count(*register),
                dim_increment == reg_increment(*register),
                register_ok(*register),
                es == register_entries(*register),
                regmap.wf(),
                regmap@ == insert_all(Seq::empty(), prev + es.take(dim_i as int)),
            decreases dim - dim_i,
        {
            let fieldmap = match &register.fields {
                Some(fields) => gen_fields(fields),
                None => OffsetMap::new(),
            };
            proof {
                assert(dim_increment * dim_i <= dim_increment * (dim - 1)) by (nonlinear_arith)
                    requires
                        dim_i <= dim - 1,
                ;
            }
            let offset = register.addressOffset + dim_increment * dim_i;
            let index = decimal(dim_i as usize);
            proof {
                reveal_strlit("%s");
                assert("%s"@ =~= seq!['%', 's']);
            }
            let name = replace(register.name.as_str(), "%s", index.as_str());
            let width = (match register.size { Some(s) => s, None => 0usize }) / 8;
            let dimension = match register.dim {
                Some(d) => Some((d, register.dimIncrement.unwrap())),
                None => None,
            };
            regmap.insert(offset as usize, RegisterAst { name, fields: fieldmap, width, dim: dimension });
            proof {
                assert(es[dim_i as int] == (register_offset(*register, dim_i as nat), register_view_at(*register, dim_i as nat)));
                assert((prev + es.take(dim_i + 1)) == (prev + es.take(dim_i as int)).push(es[dim_i as int]));
                lemma_insert_all_push(Seq::empty(), prev + es.take(dim_i as int), es[dim_i as int]);
            }
            dim_i = dim_i + 1;
        }
        assert(es.take(dim as int) == es);
        ri = ri + 1;
    }
    assert(registers@.take(registers@.len() as int) == registers@);
    regmap
}


/// The position of the first peripheral named `name` in `ps`.
pub open spec fn find_named(ps: Seq<PeripheralView>, name: Seq<char>) -> Option<int>
    decreases ps.len(),
{
    if ps.len() == 0 {
        None
    } else if ps[0].name == name {
        Some(0)
    } else {
        match find_named(ps.drop_first(), name) {
            Some(i) => Some(i + 1),
            None => None,
        }
    }
}

/// The AST model of a cluster.
pub open spec fn cluster_view(c: Cluster) -> ClusterView {
    ClusterView { name: c.name@, registers: spec_gen_regs(c.register@) }
}

/// The registers of a peripheral, given the peripherals built before it:
/// those of the first earlier peripheral it derives from; else its register
/// table, or its clusters where the table is empty.
pub open spec fn spec_reg_list(p: Peripheral, prev: Seq<PeripheralView>) -> RegListView {
    match p.derivedFrom {
        Some(d) => prev[find_named(prev, d@).unwrap()].regs,
        None => match p.registers {
            Some(rs) => if spec_gen_regs(rs.register@).len() > 0 {
                RegListView::Registers(spec_gen_regs(rs.register@))
            } else {
                RegListView::Cluster(rs.cluster@.map_values(|c: Cluster| cluster_view(c)))
            },
            None => RegListView::Registers(Seq::empty()),
        },
    }
}

/// The AST model of a peripheral, given the peripherals built before it.
pub open spec fn spec_peripheral(p: Peripheral, prev: Seq<PeripheralView>) -> PeripheralView {
    PeripheralView {
        name: p.name@,
        address: p.baseAddress,
        regs: spec_reg_list(p, prev),
        derives: opt_string_view(p.derivedFrom),
    }
}

/// The AST models of a list of peripherals, each built after those before it.
pub open spec fn spec_peripherals(ps: Seq<Peripheral>) -> Seq<PeripheralView>
    decreases ps.len(),
{
    if ps.len() == 0 {
        Seq::empty()
    } else {
        let prev = spec_peripherals(ps.drop_last());
        prev.push(spec_peripheral(ps.last(), prev))
    }
}

/// The AST models of the peripherals of a device.
pub open spec fn spec_parse_xml(device: Device) -> Seq<PeripheralView> {
    match device.peripherals {
        Some(ps) => spec_peripherals(ps.peripheral@),
        None => Seq::empty(),
    }
}

/// Whether a peripheral can be built after peripherals with the names
/// `prev_names`: one it derives from stands before it, and its registers,
/// or else its clusters where it needs them, can be turned into AST entries.
pub open spec fn peripheral_ok(p: Peripheral, prev_names: Seq<Seq<char>>) -> bool {
    match p.derivedFrom {
        Some(d) => prev_names.contains(d@),
        None => match p.registers {
            Some(rs) => registers_ok(rs.register@) && (spec_gen_regs(rs.register@).len() == 0 ==>
                forall|c: int| 0 <= c < rs.cluster@.len() ==> registers_ok(#[trigger] rs.cluster@[c].register@)),
            None => true,
        },
    }
}

/// The names of the peripherals `ps`.
pub open spec fn peripheral_names(ps: Seq<Peripheral>) -> Seq<Seq<char>> {
    ps.map_values(|p: Peripheral| p.name@)
}

/// Whether every peripheral of a device can be built.
pub open spec fn device_ok(device: Device) -> bool {
    device.peripherals matches Some(ps) ==> forall|i: int| 0 <= i < ps.peripheral@.len() ==>
        peripheral_ok(#[trigger] ps.peripheral@[i], peripheral_names(ps.peripheral@.take(i)))
}

proof fn lemma_spec_peripherals_names(ps: Seq<Peripheral>)
    ensures
        spec_peripherals(ps).len() == ps.len(),
        forall|i: int| 0 <= i < ps.len() ==> (#[trigger] spec_peripherals(ps)[i]).name == ps[i].name@,
        forall|i: int| 0 <= i < ps.len() ==> spec_peripherals(ps.take(i + 1)) == #[trigger] spec_peripherals(ps.take(i)).push(spec_peripheral(ps[i], spec_peripherals(ps.take(i)))),
    decreases ps.len(),
{
    if ps.len() > 0 {
        lemma_spec_peripherals_names(ps.drop_last());
        assert forall|i: int| 0 <= i < ps.len() implies spec_peripherals(ps.take(i + 1)) == #[trigger] spec_peripherals(ps.take(i)).push(spec_peripheral(ps[i], spec_peripherals(ps.take(i)))) by {
            assert(ps.take(i + 1).drop_last() == ps.take(i));
            assert(ps.take(i + 1).last() == ps[i]);
        }
        assert forall|i: int| 0 <= i < ps.len() implies (#[trigger] spec_peripherals(ps)[i]).name == ps[i].name@ by {
            if i < ps.len() - 1 {
                assert(ps.drop_last()[i] == ps[i]);
            }
        }
    }
}

proof fn lemma_find_named(ps: Seq<PeripheralView>, name: Seq<char>, i: int)
    requires
        0 <= i < ps.len(),
        ps[i].name == name,
        forall|j: int| 0 <= j < i ==> (#[trigger] ps[j]).name != name,
    ensures
        find_named(ps, name) == Some(i),
    decreases i,
{
    if i > 0 {
        let t = ps.drop_first();
        assert forall|j: int| 0 <= j < i - 1 implies (#[trigger] t[j]).name != name by {
            assert(t[j] == ps[j + 1]);
        }
        lemma_find_named(t, name, i - 1);
    }
}

fn gen_clusters(clusters: &Vec<Cluster>) -> (r: Vec<AstCluster>)
    requires
        forall|c: int| 0 <= c < clusters@.len() ==> registers_ok(#[trigger] clusters@[c].register@),
    ensures
        r@.map_values(|c: AstCluster| c@) == clusters@.map_values(|c: Cluster| cluster_view(c)),
{
    let mut out: Vec<AstCluster> = Vec::new();
    let mut i: usize = 0;
    while i < clusters.len()
        invariant
            0 <= i <= clusters@.len(),
            forall|c: int| 0 <= c < clusters@.len() ==> registers_ok(#[trigger] clusters@[c].register@),
            out@.len() == i,
            forall|j: int| 0 <= j < i ==> (#[trigger] out@[j])@ == cluster_view(clusters@[j]),
        decreases clusters@.len() - i,
    {
        let cluster = &clusters[i];
        assert(clusters@[i as int] == *cluster);
        out.push(AstCluster { name: cluster.name.clone(), registers: gen_regs(&cluster.register) });
        i = i + 1;
    }
    assert(out@.map_values(|c: AstCluster| c@) =~= clusters@.map_values(|c: Cluster| cluster_view(c)));
    out
}

/// Turns the device description into the list of peripheral ASTs, in the
/// order of the description. A peripheral that derives from another takes
/// the registers of the first one of that name built before it.
pub fn parse_xml(device: Device) -> (r: Vec<PeripheralAst>)
    requires
        device_ok(device),
    ensures
        peripherals_view(r@) == spec_parse_xml(device),
{
    let mut peripheral_asts: Vec<PeripheralAst> = Vec::new();
    if let Some(peripherals) = &device.peripherals {
        let ps = &peripherals.peripheral;
        let mut i: usize = 0;
        proof {
            lemma_spec_peripherals_names(ps@);
            assert(ps@.take(0) =~= Seq::<Peripheral>::empty());
            assert(peripherals_view(peripheral_asts@) =~= Seq::<PeripheralView>::empty());
        }
        while i < ps.len()
            invariant
                0 <= i <= ps@.len(),
                device.peripherals == Some(*peripherals),
                ps@ == peripherals.peripheral@,
                device_ok(device),
                spec_peripherals(ps@).len() == ps@.len(),
                forall|k: int| 0 <= k < ps@.len() ==> (#[trigger] spec_peripherals(ps@)[k]).name == ps@[k].name@,
                forall|k: int| 0 <= k < ps@.len() ==> spec_peripherals(ps@.take(k + 1)) == #[trigger] spec_peripherals(ps@.take(k)).push(spec_peripheral(ps@[k], spec_peripherals(ps@.take(k)))),
                peripherals_view(peripheral_asts@) == spec_peripherals(ps@.take(i as int)),
            decreases ps@.len() - i,
        {
            let peripheral = &ps[i];
            let ghost prev = spec_peripherals(ps@.take(i as int));
            assert(ps@[i as int] == *peripheral);
            assert(peripherals.peripheral@[i as int] == *peripheral);
            assert(device_ok(device));
            assert(device.peripherals matches Some(pp) && pp == *peripherals);
            assert(0 <= i < peripherals.peripheral@.len());
            assert(peripheral_ok(peripherals.peripheral@[i as int], peripheral_names(peripherals.peripheral@.take(i as int))));
            assert(peripheral_ok(*peripheral, peripheral_names(ps@.take(i as int))));
            let regs = if let Some(derive) = &peripheral.derivedFrom {
                let n = peripheral_asts.len();
                let mut j: usize = 0;
                while j < n && !(peripheral_asts[j].name == *derive)
                    invariant
                        0 <= j <= n,
                        n == peripheral_asts@.len(),
                        forall|k: int| 0 <= k < j ==> (#[trigger] peripheral_asts@[k]).name@ != derive@,
                    decreases n - j,
                {
                    j = j + 1;
                }
                let found: Option<usize> = if j < n { Some(j) } else { None };
                proof {
                    let names = peripheral_names(ps@.take(i as int));
                    assert(names.contains(derive@));
                    let w = choose|w: int| 0 <= w < names.len() && names[w] == derive@;
                    lemma_peripherals_prefix(ps@, i as int);
                    assert(peripherals_view(peripheral_asts@)[w] == prev[w]);
                    assert(prev[w].name == ps@[w].name@);
                    assert(names[w] == ps@[w].name@);
                    assert(peripheral_asts@[w]@ == prev[w]);
                    if found is None {
                        assert(peripheral_asts@[w].name@ != derive@);
                    }
                }
                match found {
                    Some(j) => {
                        proof {
                            let views = peripherals_view(peripheral_asts@);
                            assert forall|k: int| 0 <= k < j implies (#[trigger] views[k]).name != derive@ by {
                                assert(views[k] == peripheral_asts@[k]@);
                            }
                            lemma_find_named(views, derive@, j as int);
                        }
                        peripheral_asts[j].regs.clone()
                    }
                    None => {
                        proof {
                            assert(false);
                        }
                        RegList::Registers(OffsetMap::new())
                    }
                }
            } else {
                if let Some(registers) = &peripheral.registers {
                    let regmap = gen_regs(&registers.register);
                    if regmap.len() > 0 {
                        RegList::Registers(regmap)
                    } else {
                        let clusters = gen_clusters(&registers.cluster);
                        RegList::Cluster(clusters)
                    }
                } else {
                    RegList::Registers(OffsetMap::new())
                }
            };
            let ast = PeripheralAst {
                name: peripheral.name.clone(),
                address: peripheral.baseAddress,
                regs,
                derives: clone_opt_string(&peripheral.derivedFrom),
            };
            assert(ast@ == spec_peripheral(*peripheral, prev));
            peripheral_asts.push(ast);
            proof {
                assert(peripherals_view(peripheral_asts@) =~= prev.push(ast@));
            }
            i = i + 1;
        }
        proof {
            assert(ps@.take(ps@.len() as int) == ps@);
        }
    }
    peripheral_asts
}

proof fn lemma_peripherals_prefix(ps: Seq<Peripheral>, i: int)
    requires
        0 <= i <= ps.len(),
    ensures
        spec_peripherals(ps.take(i)) == spec_peripherals(ps).take(i),
    decreases ps.len(),
{
    if i == ps.len() {
        assert(ps.take(i) == ps);
        assert(spec_peripherals(ps).take(i) =~= spec_peripherals(ps)) by {
            lemma_spec_peripherals_names(ps);
        }
    } else {
        lemma_peripherals_prefix(ps.drop_last(), i);
        assert(ps.drop_last().take(i) == ps.take(i));
        lemma_spec_peripherals_names(ps.drop_last());
        assert(spec_peripherals(ps).take(i) =~= spec_peripherals(ps.drop_last()).take(i));
    }
}


fn check_enum_values(f: &Field) -> (r: bool)
    ensures
        r == enum_values_ok(*f),
{
    match &f.enumeratedValues {
        None => true,
        Some(ev) => {
            let vals = &ev.enumeratedValue;
            let mut k: usize = 0;
            while k < vals.len()
                invariant
                    0 <= k <= vals@.len(),
                    vals@ == ev.enumeratedValue@,
                    f.enumeratedValues == Some(*ev),
                    forall|j: int| 0 <= j < k ==> {
                        let v = #[trigger] ev.enumeratedValue@[j];
                        &&& (v.description is Some ==> v.name@.len() > 0)
                        &&& spec_enum_value(v.value@) is Some
                    },
                decreases vals@.len() - k,
            {
                let v = &vals[k];
                assert(ev.enumeratedValue@[k as int] == *v);
                if v.description.is_some() && v.name.as_str().unicode_len() == 0 {
                    return false;
                }
                if enum_value(v.value.as_str()).is_none() {
                    return false;
                }
                k = k + 1;
            }
            true
        },
    }
}

fn check_register(r: &Register) -> (ok: bool)
    ensures
        ok == register_ok(*r),
{
    let count: u32 = match r.dim { Some(d) => d, None => 1 };
    if count == 0 {
        return true;
    }
    if r.dim.is_some() && r.dimIncrement.is_none() {
        return false;
    }
    let inc: u32 = match r.dimIncrement { Some(d) => d, None => 0 };
    proof {
        vstd::arithmetic::mul::lemma_mul_upper_bound(inc as int, u32::MAX as int, (count - 1) as int, u32::MAX as int);
        assert(u32::MAX as int * u32::MAX as int <= u64::MAX);
    }
    let span: u64 = (inc as u64) * ((count - 1) as u64);
    if span > (u32::MAX - r.addressOffset) as u64 {
        return false;
    }
    match &r.fields {
        None => true,
        Some(fs) => {
            let mut j: usize = 0;
            while j < fs.field.len()
                invariant
                    0 <= j <= fs.field@.len(),
                    r.fields == Some(*fs),
                    reg_count(*r) > 0,
                    forall|i: int| 0 <= i < j ==> enum_values_ok(#[trigger] fs.field@[i]),
                decreases fs.field@.len() - j,
            {
                if !check_enum_values(&fs.field[j]) {
                    assert(!enum_values_ok(fs.field@[j as int]));
                    assert(r.fields->Some_0 == *fs);
                    assert(!register_ok(*r));
                    return false;
                }
                j = j + 1;
            }
            true
        },
    }
}

/// Whether every register of `rs` can be turned into AST entries (see `registers_ok`).
pub fn check_registers(rs: &Vec<Register>) -> (ok: bool)
    ensures
        ok == registers_ok(rs@),
{
    let mut i: usize = 0;
    while i < rs.len()
        invariant
            0 <= i <= rs@.len(),
            forall|j: int| 0 <= j < i ==> register_ok(#[trigger] rs@[j]),
        decreases rs@.len() - i,
    {
        if !check_register(&rs[i]) {
            return false;
        }
        i = i + 1;
    }
    true
}

/// Whether every peripheral of a device can be built (see `device_ok`).
pub fn check_device(device: &Device) -> (ok: bool)
    ensures
        ok == device_ok(*device),
{
    match &device.peripherals {
        None => true,
        Some(peripherals) => {
            let ps = &peripherals.peripheral;
            let mut i: usize = 0;
            while i < ps.len()
                invariant
                    0 <= i <= ps@.len(),
                    ps@ == peripherals.peripheral@,
                    device.peripherals == Some(*peripherals),
                    forall|j: int| 0 <= j < i ==> peripheral_ok(#[trigger] ps@[j], peripheral_names(ps@.take(j))),
                decreases ps@.len() - i,
            {
                let p = &ps[i];
                let ghost names = peripheral_names(ps@.take(i as int));
                let ok = match &p.derivedFrom {
                    Some(d) => {
                        let mut j: usize = 0;
                        let mut found = false;
                        while j < i && !found
                            invariant
                                0 <= j <= i,
                                i < ps@.len(),
                                names == peripheral_names(ps@.take(i as int)),
                                found ==> names.contains(d@),
                                !found ==> forall|k: int| 0 <= k < j ==> names[k] != d@,
                            decreases i - j + (if found { 0int } else { 1int }),
                        {
                            if crate::text::str_eq(ps[j].name.as_str(), d.as_str()) {
                                assert(names[j as int] == d@);
                                found = true;
                            } else {
                                j = j + 1;
                            }
                        }
                        assert(found == names.contains(d@));
                        found
                    },
                    None => match &p.registers {
                        None => true,
                        Some(rs) => {
                            if !check_registers(&rs.register) {
                                false
                            } else if gen_regs(&rs.register).len() > 0 {
                                assert(spec_gen_regs(rs.register@).len() > 0);
                                true
                            } else {
                                let mut c: usize = 0;
                                let mut all = true;
                                while c < rs.cluster.len() && all
                                    invariant
                                        0 <= c <= rs.cluster@.len(),
                                        all ==> forall|k: int| 0 <= k < c ==> registers_ok(#[trigger] rs.cluster@[k].register@),
                                        !all ==> exists|k: int| 0 <= k < rs.cluster@.len() && !registers_ok(#[trigger] rs.cluster@[k].register@),
                                    decreases rs.cluster@.len() - c + (if all { 1int } else { 0int }),
                                {
                                    if !check_registers(&rs.cluster[c].register) {
                                        all = false;
                                    } else {
                                        c = c + 1;
                                    }
                                }
                                assert(all == (forall|k: int| 0 <= k < rs.cluster@.len() ==> registers_ok(#[trigger] rs.cluster@[k].register@)));
                                all
                            }
                        },
                    },
                };
                assert(ps@[i as int] == *p);
                if !ok {
                    proof {
                        assert(!peripheral_ok(ps@[i as int], names));
                        assert(!device_ok(*device)) by {
                            assert(peripherals.peripheral@[i as int] == *p);
                            assert(device.peripherals matches Some(pp) && pp == *peripherals);
                            assert(!peripheral_ok(peripherals.peripheral@[i as int], peripheral_names(peripherals.peripheral@.take(i as int))));
                        }
                    }
                    return false;
                }
                i = i + 1;
            }
            proof {
                assert forall|j: int| 0 <= j < peripherals.peripheral@.len() implies
                    peripheral_ok(#[trigger] peripherals.peripheral@[j], peripheral_names(peripherals.peripheral@.take(j))) by {
                    assert(ps@[j] == peripherals.peripheral@[j]);
                }
            }
            true
        },
    }
}

} // verus!
