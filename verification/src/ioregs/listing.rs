//! The register listing: each peripheral as an `ioregs!` block, its
//! registers sorted by offset, each register with its fields and their
//! named values.

#![allow(non_snake_case)]

use vstd::prelude::*;
use vstd::wrapping::usize_specs;
use crate::text::{decimal, spec_decimal, spec_parse_num, spec_parse_usize, parse_usize, parse_usize_from,
    parse_u32, parse_u32_from, str_eq};
use crate::ioregs::model::{
    Device, DeviceV, Peripheral, PeripheralV, Register, RegisterV, Field, FieldV,
    EnumeratedValue, EnumeratedValueV, Regs, RegsV, register_list_view,
    peripheral_list_view, regs_list_view, field_list_view, enumerated_value_list_view,
};
use crate::ioregs::order::{sort_order, stable_order};

verus! {

/// Whether byte 2 of `s` is a char boundary within it: the first two chars
/// are ASCII, or the first is a two-byte char.
pub open spec fn has_two_byte_prefix(s: Seq<char>) -> bool {
    ||| (s.len() >= 2 && (s[0] as u32) < 0x80 && (s[1] as u32) < 0x80)
    ||| (s.len() >= 1 && 0x80 <= (s[0] as u32) && (s[0] as u32) < 0x800)
}

/// Reads a number as the SVD file writes it: hexadecimal after `0x`, else
/// decimal; `None` where it is no such number or does not fit a `u32`.
pub fn parse_num(s: &str) -> (r: Option<u32>)
    requires
        has_two_byte_prefix(s@),
    ensures
        r == spec_parse_num(s@),
{
    let n = s.unicode_len();
    if n >= 2 && s.get_char(0) == '0' && s.get_char(1) == 'x' {
        parse_u32_from(s, 2, 16)
    } else {
        parse_u32(s, 10)
    }
}

/// The model of an optional reference to a text.
pub open spec fn opt_ref_text(o: Option<&String>) -> Option<Seq<char>> {
    match o {
        Some(s) => Some(s@),
        None => None,
    }
}

/// The documentation comment after an item: ` //= ` and the text, where
/// there is one.
pub open spec fn spec_doc(doc: Option<Seq<char>>) -> Seq<char> {
    match doc {
        Some(d) => " //= "@ + d,
        None => Seq::empty(),
    }
}

/// Writes the documentation comment after an item.
pub fn write_doc_comment(doc: Option<&String>) -> (r: String)
    ensures
        r@ == spec_doc(opt_ref_text(doc)),
{
    match doc {
        Some(d) => {
            let mut out = String::from_str(" //= ");
            out.append(d.as_str());
            out
        },
        None => String::new(),
    }
}

/// The position of the first `:` of `s` from char `i` on.
pub open spec fn colon_from(s: Seq<char>, i: int) -> Option<int>
    decreases s.len() - i,
{
    if i < 0 || i >= s.len() {
        None
    } else if s[i] == ':' {
        Some(i)
    } else {
        colon_from(s, i + 1)
    }
}

/// The two parts of `s` around its one `:`; `None` where it has none or more.
pub open spec fn split_colon(s: Seq<char>) -> Option<(Seq<char>, Seq<char>)> {
    match colon_from(s, 0) {
        Some(k) => if colon_from(s, k + 1) is None {
            Some((s.take(k), s.skip(k + 1)))
        } else {
            None
        },
        None => None,
    }
}

/// The first and last bit of a bit range written `[last:first]`: the
/// parts around the `:` without their outer char, each a decimal number.
/// `None` where the range is not so written.
pub open spec fn spec_bit_range(br: Seq<char>) -> Option<(usize, usize)> {
    match split_colon(br) {
        Some((a, b)) => if a.len() >= 1 && (a[0] as u32) < 0x80 && b.len() >= 1 && (b.last() as u32) < 0x80 {
            match (spec_parse_usize(a.skip(1), 10), spec_parse_usize(b.drop_last(), 10)) {
                (Some(last), Some(first)) => Some((first, last)),
                _ => None,
            }
        } else {
            None
        },
        None => None,
    }
}

fn find_colon(s: &str, start: usize) -> (r: Option<usize>)
    requires
        start <= s@.len(),
    ensures
        match r {
            Some(j) => colon_from(s@, start as int) == Some(j as int) && start <= j < s@.len(),
            None => colon_from(s@, start as int) is None,
        },
{
    let n = s.unicode_len();
    let mut i = start;
    while i < n
        invariant
            n == s@.len(),
            start <= i <= n,
            colon_from(s@, start as int) == colon_from(s@, i as int),
        decreases n - i,
    {
        if s.get_char(i) == ':' {
            return Some(i);
        }
        i = i + 1;
    }
    None
}

/// Reads a bit range written `[last:first]` (see `spec_bit_range`), giving
/// its first and last bit.
pub fn bit_range(br: &str) -> (r: Option<(usize, usize)>)
    ensures
        r == spec_bit_range(br@),
{
    let n = br.unicode_len();
    let k = match find_colon(br, 0) {
        Some(k) => k,
        None => {
            return None;
        },
    };
    match find_colon(br, k + 1) {
        Some(_) => {
            return None;
        },
        None => {},
    }
    let a = br.substring_char(0, k);
    let b = br.substring_char(k + 1, n);
    proof {
        assert(a@ == br@.take(k as int));
        assert(b@ == br@.skip(k + 1));
    }
    let alen = a.unicode_len();
    let blen = b.unicode_len();
    if alen < 1 || blen < 1 {
        return None;
    }
    let c0 = a.get_char(0);
    let cl = b.get_char(blen - 1);
    if (c0 as u32) >= 0x80 || (cl as u32) >= 0x80 {
        return None;
    }
    let last = parse_usize_from(a, 1, 10);
    let body = b.substring_char(0, blen - 1);
    assert(body@ == b@.drop_last());
    let first = parse_usize(body, 10);
    match (last, first) {
        (Some(l), Some(f)) => Some((f, l)),
        _ => None,
    }
}

/// Whether a field can be listed: a field other than `RESERVED` has a bit
/// range written `[last:first]`, or else both a bit offset and a width.
pub open spec fn field_listable(f: FieldV) -> bool {
    f.name != "RESERVED"@ ==> match f.bitRange {
        Some(br) => spec_bit_range(br) is Some,
        None => f.bitOffset is Some && f.bitWidth is Some,
    }
}

/// The first bit and the width of a field: from its bit range, the width
/// `last - first + 1` in wrapping arithmetic, or else its offset and width.
pub open spec fn spec_field_bits(f: FieldV) -> (usize, usize) {
    match f.bitRange {
        Some(br) => match spec_bit_range(br) {
            Some((first, last)) => (first, usize_specs::wrapping_add(usize_specs::wrapping_sub(last, first), 1)),
            None => (0, 0),
        },
        None => match (f.bitOffset, f.bitWidth) {
            (Some(o), Some(w)) => (o, w),
            _ => (0, 0),
        },
    }
}

/// The line of a named value: its value and name, where it has a name.
pub open spec fn spec_enum_line(e: EnumeratedValueV) -> Seq<char> {
    if e.name.len() == 0 {
        Seq::empty()
    } else {
        "             "@ + e.value + " => "@ + e.name + ","@ + spec_doc(e.description) + "\n"@
    }
}

/// The lines of a list of named values.
pub open spec fn spec_enum_lines(s: Seq<EnumeratedValueV>) -> Seq<char>
    decreases s.len(),
{
    if s.len() == 0 {
        Seq::empty()
    } else {
        spec_enum_lines(s.drop_last()) + spec_enum_line(s.last())
    }
}

/// The lines of a field: its bits (`first..last` for more than one), its
/// name, and its named values in braces where it has any. Nothing for a
/// field named `RESERVED`.
pub open spec fn spec_write_field(f: FieldV) -> Seq<char> {
    if f.name == "RESERVED"@ {
        Seq::empty()
    } else {
        let (lsb, width) = spec_field_bits(f);
        let top = usize_specs::wrapping_sub(usize_specs::wrapping_add(lsb, width), 1);
        let range = if width > 1 { ".."@ + spec_decimal(top as nat) } else { Seq::<char>::empty() };
        let open = if f.enumeratedValues.len() == 0 { ","@ } else { " {"@ };
        let head = "         "@ + spec_decimal(lsb as nat) + range + " => "@ + f.name + open + spec_doc(f.description) + "\n"@;
        if f.enumeratedValues.len() == 0 {
            head
        } else {
            head + spec_enum_lines(f.enumeratedValues) + "         }\n"@
        }
    }
}

/// Writes the line of a named value.
pub fn write_enum_line(e: &EnumeratedValue) -> (r: String)
    ensures
        r@ == spec_enum_line(e@),
{
    if e.name.unicode_len() == 0 {
        return String::new();
    }
    let mut out = String::from_str("             ");
    out.append(e.value.as_str());
    out.append(" => ");
    out.append(e.name.as_str());
    out.append(",");
    let d = write_doc_comment(e.description.as_ref());
    out.append(d.as_str());
    out.append("\n");
    out
}

/// Writes the lines of a field (see `spec_write_field`).
pub fn write_field(field: &Field) -> (r: String)
    requires
        field_listable(field@),
    ensures
        r@ == spec_write_field(field@),
{
    if str_eq(field.name.as_str(), "RESERVED") {
        return String::new();
    }
    let (lsb, width) = match &field.bitRange {
        Some(br) => match bit_range(br.as_str()) {
            Some((first, last)) => (first, last.wrapping_sub(first).wrapping_add(1)),
            None => {
                assert(false);
                (0, 0)
            },
        },
        None => match (field.bitOffset, field.bitWidth) {
            (Some(o), Some(w)) => (o, w),
            _ => {
                assert(false);
                (0, 0)
            },
        },
    };
    assert((lsb, width) == spec_field_bits(field@));
    let mut out = String::from_str("         ");
    let t = decimal(lsb);
    out.append(t.as_str());
    if width > 1 {
        out.append("..");
        let t = decimal(lsb.wrapping_add(width).wrapping_sub(1));
        out.append(t.as_str());
    }
    out.append(" => ");
    out.append(field.name.as_str());
    let n = field.enumeratedValues.len();
    if n == 0 {
        out.append(",");
    } else {
        out.append(" {");
    }
    let d = write_doc_comment(field.description.as_ref());
    out.append(d.as_str());
    out.append("\n");
    if n != 0 {
        let ghost vals = enumerated_value_list_view(field.enumeratedValues@);
        let ghost head = out@;
        let mut i: usize = 0;
        assert(vals.take(0) =~= Seq::<EnumeratedValueV>::empty());
        while i < n
            invariant
                n == field.enumeratedValues@.len(),
                vals == enumerated_value_list_view(field.enumeratedValues@),
                i <= n,
                out@ == head + spec_enum_lines(vals.take(i as int)),
            decreases n - i,
        {
            let line = write_enum_line(&field.enumeratedValues[i]);
            out.append(line.as_str());
            proof {
                assert(vals.take(i + 1).drop_last() =~= vals.take(i as int));
                assert(vals.take(i + 1).last() == vals[i as int]);
            }
            i = i + 1;
        }
        assert(vals.take(n as int) =~= vals);
        out.append("         }\n");
    }
    out
}

/// The lines of a list of fields.
pub open spec fn spec_fields_text(s: Seq<FieldV>) -> Seq<char>
    decreases s.len(),
{
    if s.len() == 0 {
        Seq::empty()
    } else {
        spec_fields_text(s.drop_last()) + spec_write_field(s.last())
    }
}

/// Whether each field of a register can be listed.
pub open spec fn register_listable(r: RegisterV) -> bool {
    forall|i: int| 0 <= i < r.fields.len() ==> #[trigger] field_listable(r.fields[i])
}

/// The lines of a register: for an array, a comment with its count and
/// step; then its offset, width and name, its fields, and a closing brace.
pub open spec fn spec_write_register(r: RegisterV) -> Seq<char> {
    let repeat = match (r.dim, r.dimIncrement) {
        (Some(d), Some(inc)) => "    // repeat: "@ + spec_decimal(d as nat) + " increment "@ + inc + "\n"@,
        _ => Seq::<char>::empty(),
    };
    let offset = match r.addressOffset {
        Some(o) => o,
        None => Seq::<char>::empty(),
    };
    let size: usize = match r.size {
        Some(s) => s,
        None => 0,
    };
    repeat + "    "@ + offset + " => reg"@ + spec_decimal(size as nat) + " "@ + r.name + " {"@ + spec_doc(r.description)
        + "\n"@ + spec_fields_text(r.fields) + "    }\n"@
}

/// Writes the lines of a register (see `spec_write_register`).
pub fn write_register(register: &Register) -> (r: String)
    requires
        register_listable(register@),
    ensures
        r@ == spec_write_register(register@),
{
    let mut out = String::new();
    match (register.dim, register.dimIncrement.as_ref()) {
        (Some(d), Some(inc)) => {
            out.append("    // repeat: ");
            let t = decimal(d);
            out.append(t.as_str());
            out.append(" increment ");
            out.append(inc.as_str());
            out.append("\n");
        },
        _ => {},
    }
    out.append("    ");
    match &register.addressOffset {
        Some(o) => out.append(o.as_str()),
        None => {},
    }
    out.append(" => reg");
    let size = match register.size {
        Some(s) => s,
        None => 0,
    };
    let t = decimal(size);
    out.append(t.as_str());
    out.append(" ");
    out.append(register.name.as_str());
    out.append(" {");
    let d = write_doc_comment(register.description.as_ref());
    out.append(d.as_str());
    out.append("\n");
    let ghost fields = field_list_view(register.fields@);
    let ghost head = out@;
    let n = register.fields.len();
    let mut i: usize = 0;
    assert(fields.take(0) =~= Seq::<FieldV>::empty());
    while i < n
        invariant
            n == register.fields@.len(),
            fields == field_list_view(register.fields@),
            register_listable(register@),
            i <= n,
            out@ == head + spec_fields_text(fields.take(i as int)),
        decreases n - i,
    {
        assert(field_listable(register@.fields[i as int]));
        let t = write_field(&register.fields[i]);
        out.append(t.as_str());
        proof {
            assert(fields.take(i + 1).drop_last() =~= fields.take(i as int));
            assert(fields.take(i + 1).last() == fields[i as int]);
        }
        i = i + 1;
    }
    assert(fields.take(n as int) =~= fields);
    out.append("    }\n");
    out
}

/// The sort key of a register: its offset read as a number, ordered as
/// `Option<Option<u32>>` orders: no offset, then an offset that is no
/// number, then the numbers.
pub open spec fn spec_register_key(r: RegisterV) -> u64 {
    match r.addressOffset {
        None => 0,
        Some(o) => match spec_parse_num(o) {
            None => 1,
            Some(v) => (v + 2) as u64,
        },
    }
}

/// The sort keys of a list of registers.
pub open spec fn register_keys(s: Seq<RegisterV>) -> Seq<u64> {
    s.map_values(|r: RegisterV| spec_register_key(r))
}

/// Whether the offset of a register, where it has one, can be read.
pub open spec fn offset_readable(r: RegisterV) -> bool {
    match r.addressOffset {
        Some(o) => has_two_byte_prefix(o),
        None => true,
    }
}

/// Whether each register of a list can be sorted and listed.
pub open spec fn registers_listable(s: Seq<RegisterV>) -> bool {
    forall|i: int| 0 <= i < s.len() ==> offset_readable(#[trigger] s[i]) && register_listable(s[i])
}

/// The registers of `s` in the order `order`.
pub open spec fn in_order(s: Seq<RegisterV>, order: Seq<usize>) -> Seq<RegisterV> {
    order.map_values(|i: usize| s[i as int])
}

/// The registers of `s` sorted by key, stably.
pub open spec fn sorted_registers(s: Seq<RegisterV>) -> Seq<RegisterV> {
    in_order(s, stable_order(register_keys(s)))
}

/// The lines of a list of registers, in their order.
pub open spec fn spec_registers_lines(s: Seq<RegisterV>) -> Seq<char>
    decreases s.len(),
{
    if s.len() == 0 {
        Seq::empty()
    } else {
        spec_registers_lines(s.drop_last()) + spec_write_register(s.last())
    }
}

/// The models of a list of register references.
pub open spec fn register_refs_view(s: Seq<&Register>) -> Seq<RegisterV> {
    s.map_values(|r: &Register| r@)
}

/// The sort key of a register.
pub fn register_key(register: &Register) -> (k: u64)
    requires
        offset_readable(register@),
    ensures
        k == spec_register_key(register@),
{
    match &register.addressOffset {
        None => 0,
        Some(o) => match parse_num(o.as_str()) {
            None => 1,
            Some(v) => v as u64 + 2,
        },
    }
}

/// Sorts the registers by offset, stably (see `spec_register_key`), and
/// writes the lines of each in that order.
pub fn write_registers(registers: &mut Vec<&Register>) -> (r: String)
    requires
        registers_listable(register_refs_view(old(registers)@)),
    ensures
        register_refs_view(final(registers)@) == sorted_registers(register_refs_view(old(registers)@)),
        r@ == spec_registers_lines(sorted_registers(register_refs_view(old(registers)@))),
{
    let ghost regs = register_refs_view(registers@);
    let n = registers.len();
    let mut keys: Vec<u64> = Vec::new();
    let mut i: usize = 0;
    while i < n
        invariant
            n == registers@.len(),
            regs == register_refs_view(registers@),
            registers_listable(regs),
            i <= n,
            keys@ == register_keys(regs).take(i as int),
        decreases n - i,
    {
        assert(offset_readable(regs[i as int]));
        let k = register_key(registers[i]);
        keys.push(k);
        assert(keys@ =~= register_keys(regs).take(i + 1));
        i = i + 1;
    }
    assert(keys@ =~= register_keys(regs));
    let order = sort_order(&keys);
    let mut sorted: Vec<&Register> = Vec::new();
    let mut j: usize = 0;
    while j < n
        invariant
            n == registers@.len(),
            regs == register_refs_view(registers@),
            order@ == stable_order(register_keys(regs)),
            order@.len() == n,
            forall|x: usize| #[trigger] order@.contains(x) <==> (x as int) < n,
            j <= n,
            sorted@.len() == j,
            register_refs_view(sorted@) == in_order(regs, order@).take(j as int),
        decreases n - j,
    {
        let x = order[j];
        assert(order@.contains(x));
        let ghost before = sorted@;
        sorted.push(registers[x]);
        proof {
            let want = in_order(regs, order@).take(j + 1);
            assert(sorted@ == before.push(registers@[x as int]));
            assert(want[j as int] == regs[x as int]);
            assert(regs[x as int] == registers@[x as int]@);
            assert forall|m: int| 0 <= m < j implies #[trigger] register_refs_view(sorted@)[m] == want[m] by {
                assert(sorted@[m] == before[m]);
                assert(register_refs_view(before)[m] == in_order(regs, order@).take(j as int)[m]);
            }
            assert(register_refs_view(sorted@)[j as int] == want[j as int]);
            assert(register_refs_view(sorted@) =~= want);
        }
        j = j + 1;
    }
    assert(register_refs_view(sorted@) =~= in_order(regs, order@));
    *registers = sorted;
    let ghost s = sorted_registers(regs);
    assert forall|k: int| 0 <= k < s.len() implies register_listable(#[trigger] s[k]) by {
        let x = order@[k];
        assert(order@.contains(x));
    }
    let mut out = String::new();
    let mut k: usize = 0;
    assert(s.take(0) =~= Seq::<RegisterV>::empty());
    while k < n
        invariant
            s == register_refs_view(registers@),
            n == s.len(),
            forall|m: int| 0 <= m < s.len() ==> register_listable(#[trigger] s[m]),
            k <= n,
            out@ == spec_registers_lines(s.take(k as int)),
        decreases n - k,
    {
        assert(register_listable(s[k as int]));
        let t = write_register(registers[k]);
        out.append(t.as_str());
        proof {
            assert(s.take(k + 1).drop_last() =~= s.take(k as int));
            assert(s.take(k + 1).last() == s[k as int]);
        }
        k = k + 1;
    }
    assert(s.take(n as int) =~= s);
    out
}

/// The registers of the `register` entries of a list, in their order.
pub open spec fn plain_registers(es: Seq<RegsV>) -> Seq<RegisterV>
    decreases es.len(),
{
    if es.len() == 0 {
        Seq::empty()
    } else {
        let rest = plain_registers(es.drop_last());
        match es.last() {
            RegsV::register(r) => rest.push(r),
            RegsV::cluster(_) => rest,
        }
    }
}

/// The lines of the clusters of a list of register entries, in their
/// order: each cluster's name, then its registers sorted by offset.
pub open spec fn spec_clusters_lines(es: Seq<RegsV>) -> Seq<char>
    decreases es.len(),
{
    if es.len() == 0 {
        Seq::empty()
    } else {
        spec_clusters_lines(es.drop_last()) + match es.last() {
            RegsV::register(_) => Seq::<char>::empty(),
            RegsV::cluster(c) => "    // cluster: "@ + c.name + "\n"@ + spec_registers_lines(sorted_registers(c.registers)),
        }
    }
}

/// Whether a register entry can be listed.
pub open spec fn entry_listable(e: RegsV) -> bool {
    match e {
        RegsV::register(r) => offset_readable(r) && register_listable(r),
        RegsV::cluster(c) => registers_listable(c.registers),
    }
}

/// Whether each register entry of a peripheral can be listed.
pub open spec fn peripheral_listable(p: PeripheralV) -> bool {
    forall|i: int| 0 <= i < p.registers.len() ==> #[trigger] entry_listable(p.registers[i])
}

/// The `ioregs!` block of a peripheral: its name; the clusters, each with
/// its registers sorted; then the other registers, sorted.
pub open spec fn spec_write_peripheral(p: PeripheralV) -> Seq<char> {
    "ioregs!("@ + p.name + " = {\n"@ + spec_clusters_lines(p.registers) + spec_registers_lines(
        sorted_registers(plain_registers(p.registers)),
    ) + "});\n"@
}

/// Writes the `ioregs!` block of a peripheral (see `spec_write_peripheral`).
pub fn write_peripheral(peripheral: &Peripheral) -> (r: String)
    requires
        peripheral_listable(peripheral@),
    ensures
        r@ == spec_write_peripheral(peripheral@),
{
    let ghost es = regs_list_view(peripheral.registers@);
    let mut registers: Vec<&Register> = Vec::new();
    let mut out = String::from_str("ioregs!(");
    out.append(peripheral.name.as_str());
    out.append(" = {\n");
    let ghost head = out@;
    let n = peripheral.registers.len();
    let mut i: usize = 0;
    assert(es.take(0) =~= Seq::<RegsV>::empty());
    assert(register_refs_view(registers@) =~= Seq::<RegisterV>::empty());
    while i < n
        invariant
            n == peripheral.registers@.len(),
            es == regs_list_view(peripheral.registers@),
            es == peripheral@.registers,
            peripheral_listable(peripheral@),
            i <= n,
            register_refs_view(registers@) == plain_registers(es.take(i as int)),
            registers_listable(register_refs_view(registers@)),
            out@ == head + spec_clusters_lines(es.take(i as int)),
        decreases n - i,
    {
        assert(entry_listable(peripheral@.registers[i as int]));
        proof {
            assert(es.take(i + 1).drop_last() =~= es.take(i as int));
            assert(es.take(i + 1).last() == es[i as int]);
        }
        match &peripheral.registers[i] {
            Regs::register(r) => {
                let ghost before = registers@;
                registers.push(r);
                proof {
                    assert(register_refs_view(registers@) =~= register_refs_view(before).push(r@));
                }
            },
            Regs::cluster(c) => {
                let ghost cregs = register_list_view(c.registers@);
                let mut cluster_regs: Vec<&Register> = Vec::new();
                let m = c.registers.len();
                let mut j: usize = 0;
                while j < m
                    invariant
                        m == c.registers@.len(),
                        cregs == register_list_view(c.registers@),
                        j <= m,
                        cluster_regs@.len() == j,
                        register_refs_view(cluster_regs@) == cregs.take(j as int),
                    decreases m - j,
                {
                    let ghost before = cluster_regs@;
                    cluster_regs.push(&c.registers[j]);
                    proof {
                        assert forall|q: int| 0 <= q < j implies #[trigger] register_refs_view(cluster_regs@)[q]
                            == cregs.take(j + 1)[q] by {
                            assert(cluster_regs@[q] == before[q]);
                            assert(register_refs_view(before)[q] == cregs.take(j as int)[q]);
                        }
                        assert(register_refs_view(cluster_regs@) =~= cregs.take(j + 1));
                    }
                    j = j + 1;
                }
                assert(cregs.take(m as int) =~= cregs);
                out.append("    // cluster: ");
                out.append(c.name.as_str());
                out.append("\n");
                let t = write_registers(&mut cluster_regs);
                out.append(t.as_str());
            },
        }
        i = i + 1;
    }
    assert(es.take(n as int) =~= es);
    let t = write_registers(&mut registers);
    out.append(t.as_str());
    out.append("});\n");
    out
}

/// The blocks of a list of peripherals, in their order.
pub open spec fn spec_peripherals_lines(s: Seq<PeripheralV>) -> Seq<char>
    decreases s.len(),
{
    if s.len() == 0 {
        Seq::empty()
    } else {
        spec_peripherals_lines(s.drop_last()) + spec_write_peripheral(s.last())
    }
}

/// Whether each peripheral of a device can be listed.
pub open spec fn device_listable(d: DeviceV) -> bool {
    forall|i: int| 0 <= i < d.peripherals.len() ==> #[trigger] peripheral_listable(d.peripherals[i])
}

/// The listing of a device: the block of each of its peripherals, in order.
pub open spec fn spec_write_device(d: DeviceV) -> Seq<char> {
    spec_peripherals_lines(d.peripherals)
}

/// Writes the listing of a device (see `spec_write_device`).
pub fn write_device(device: &Device) -> (r: String)
    requires
        device_listable(device@),
    ensures
        r@ == spec_write_device(device@),
{
    let ghost ps = peripheral_list_view(device.peripherals@);
    let mut out = String::new();
    let n = device.peripherals.len();
    let mut i: usize = 0;
    assert(ps.take(0) =~= Seq::<PeripheralV>::empty());
    while i < n
        invariant
            n == device.peripherals@.len(),
            ps == peripheral_list_view(device.peripherals@),
            ps == device@.peripherals,
            device_listable(device@),
            i <= n,
            out@ == spec_peripherals_lines(ps.take(i as int)),
        decreases n - i,
    {
        assert(peripheral_listable(device@.peripherals[i as int]));
        let t = write_peripheral(&device.peripherals[i]);
        out.append(t.as_str());
        proof {
            assert(ps.take(i + 1).drop_last() =~= ps.take(i as int));
            assert(ps.take(i + 1).last() == ps[i as int]);
        }
        i = i + 1;
    }
    assert(ps.take(n as int) =~= ps);
    out
}

fn prefix_readable(s: &str) -> (r: bool)
    ensures
        r == has_two_byte_prefix(s@),
{
    let n = s.unicode_len();
    if n >= 1 {
        let c0 = s.get_char(0) as u32;
        if n >= 2 && c0 < 0x80 && (s.get_char(1) as u32) < 0x80 {
            return true;
        }
        if 0x80 <= c0 && c0 < 0x800 {
            return true;
        }
    }
    false
}

fn check_field(f: &Field) -> (r: bool)
    ensures
        r == field_listable(f@),
{
    if str_eq(f.name.as_str(), "RESERVED") {
        return true;
    }
    match &f.bitRange {
        Some(br) => match bit_range(br.as_str()) {
            Some(_) => true,
            None => false,
        },
        None => f.bitOffset.is_some() && f.bitWidth.is_some(),
    }
}

fn check_register(r: &Register) -> (ok: bool)
    ensures
        ok == (offset_readable(r@) && register_listable(r@)),
{
    match &r.addressOffset {
        Some(o) => {
            if !prefix_readable(o.as_str()) {
                return false;
            }
        },
        None => {},
    }
    let ghost fs = field_list_view(r.fields@);
    let mut k: usize = 0;
    while k < r.fields.len()
        invariant
            fs == field_list_view(r.fields@),
            fs == r@.fields,
            offset_readable(r@),
            k <= fs.len(),
            forall|m: int| 0 <= m < k ==> #[trigger] field_listable(fs[m]),
        decreases fs.len() - k,
    {
        if !check_field(&r.fields[k]) {
            assert(!field_listable(r@.fields[k as int]));
            return false;
        }
        k = k + 1;
    }
    true
}

fn check_registers(rs: &Vec<Register>) -> (ok: bool)
    ensures
        ok == registers_listable(register_list_view(rs@)),
{
    let ghost v = register_list_view(rs@);
    let mut k: usize = 0;
    while k < rs.len()
        invariant
            v == register_list_view(rs@),
            k <= v.len(),
            forall|m: int| 0 <= m < k ==> offset_readable(#[trigger] v[m]) && register_listable(v[m]),
        decreases v.len() - k,
    {
        if !check_register(&rs[k]) {
            assert(!(offset_readable(v[k as int]) && register_listable(v[k as int])));
            return false;
        }
        k = k + 1;
    }
    true
}

fn check_peripheral(p: &Peripheral) -> (ok: bool)
    ensures
        ok == peripheral_listable(p@),
{
    let ghost es = regs_list_view(p.registers@);
    let mut k: usize = 0;
    while k < p.registers.len()
        invariant
            es == regs_list_view(p.registers@),
            es == p@.registers,
            k <= es.len(),
            forall|m: int| 0 <= m < k ==> #[trigger] entry_listable(es[m]),
        decreases es.len() - k,
    {
        let ok = match &p.registers[k] {
            Regs::register(r) => check_register(r),
            Regs::cluster(c) => check_registers(&c.registers),
        };
        if !ok {
            assert(!entry_listable(p@.registers[k as int]));
            return false;
        }
        k = k + 1;
    }
    true
}

/// Whether a device can be listed (see `device_listable`): every offset
/// that is given can be read, and every field other than `RESERVED` has a
/// bit range written `[last:first]` or else an offset and a width.
pub fn check_listable(device: &Device) -> (r: bool)
    ensures
        r == device_listable(device@),
{
    let ghost ps = peripheral_list_view(device.peripherals@);
    let mut k: usize = 0;
    while k < device.peripherals.len()
        invariant
            ps == peripheral_list_view(device.peripherals@),
            ps == device@.peripherals,
            k <= ps.len(),
            forall|m: int| 0 <= m < k ==> #[trigger] peripheral_listable(ps[m]),
        decreases ps.len() - k,
    {
        if !check_peripheral(&device.peripherals[k]) {
            assert(!peripheral_listable(device@.peripherals[k as int]));
            return false;
        }
        k = k + 1;
    }
    true
}

} // verus!
