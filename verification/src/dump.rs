//! The two text forms of a device that the command line tool prints: the
//! linker symbols of its peripherals and clusters, and a `peripheral` macro
//! block per peripheral with its registers sorted by offset.

#![allow(non_snake_case)]

use vstd::prelude::*;
use crate::text::{decimal, spec_decimal, hex, spec_hex, str_eq};
use crate::ast::{PeripheralAst, PeripheralView, RegList, RegListView, ClusterView, peripherals_view, clusters_view};
use crate::device::{Device, Peripheral, Register, Field, EnumeratedValue};
use crate::common::{make_nice_enum, spec_make_nice_enum};
use crate::ioregs::order::{sort_order, stable_order};
use crate::generator::{spec_generate_system, system_parts, spec_system_externs_of, spec_cluster_externs, module_of};
use crate::emit::{spec_extern_static, spec_system_items};

verus! {

/// The access of a field as the macro writes it: `r` for read-only, `w`
/// for write-only, `rw` for anything else.
pub open spec fn spec_access(label: Seq<char>) -> Seq<char> {
    if label == "read-only"@ {
        "r"@
    } else if label == "write-only"@ {
        "w"@
    } else {
        "rw"@
    }
}

/// The access of a field as the macro writes it (see `spec_access`).
pub fn access(label: &str) -> (r: &str)
    ensures
        r@ == spec_access(label@),
{
    if str_eq(label, "read-only") {
        "r"
    } else if str_eq(label, "write-only") {
        "w"
    } else {
        "rw"
    }
}

/// The symbol line of an address: `"SAMD21_<name>" = 0x<address>;`.
pub open spec fn spec_symbol(name: Seq<char>, address: u32) -> Seq<char> {
    "\"SAMD21_"@ + name + "\" = 0x"@ + spec_hex(address as nat) + ";\n"@
}

/// The symbol lines of the clusters of a peripheral, each at the
/// peripheral's address.
pub open spec fn spec_cluster_symbols(pname: Seq<char>, address: u32, cs: Seq<ClusterView>) -> Seq<char>
    decreases cs.len(),
{
    if cs.len() == 0 {
        Seq::empty()
    } else {
        spec_cluster_symbols(pname, address, cs.drop_last()) + spec_symbol(pname + "_"@ + cs.last().name, address)
    }
}

/// The symbol lines of a peripheral: its own, then one per cluster.
pub open spec fn spec_peripheral_symbols(p: PeripheralView) -> Seq<char> {
    spec_symbol(p.name, p.address) + match p.regs {
        RegListView::Cluster(cs) => spec_cluster_symbols(p.name, p.address, cs),
        RegListView::Registers(_) => Seq::<char>::empty(),
    }
}

/// The symbol lines of a list of peripherals, in their order.
pub open spec fn spec_dump_symbols(ps: Seq<PeripheralView>) -> Seq<char>
    decreases ps.len(),
{
    if ps.len() == 0 {
        Seq::empty()
    } else {
        spec_dump_symbols(ps.drop_last()) + spec_peripheral_symbols(ps.last())
    }
}

fn symbol(name: &str, address: u32) -> (r: String)
    ensures
        r@ == spec_symbol(name@, address),
{
    let mut out = String::from_str("\"SAMD21_");
    out.append(name);
    out.append("\" = 0x");
    let t = hex(address as u64);
    out.append(t.as_str());
    out.append(";\n");
    out
}

/// Writes the symbol lines of the peripherals (see `spec_dump_symbols`).
pub fn dump_symbols(peripherals: Vec<PeripheralAst>) -> (r: String)
    ensures
        r@ == spec_dump_symbols(peripherals_view(peripherals@)),
{
    let ghost ps = peripherals_view(peripherals@);
    let mut out = String::new();
    let n = peripherals.len();
    let mut i: usize = 0;
    assert(ps.take(0) =~= Seq::<PeripheralView>::empty());
    while i < n
        invariant
            n == peripherals@.len(),
            ps == peripherals_view(peripherals@),
            i <= n,
            out@ == spec_dump_symbols(ps.take(i as int)),
        decreases n - i,
    {
        let p = &peripherals[i];
        assert(p@ == ps[i as int]);
        let ghost before = out@;
        let t = symbol(p.name.as_str(), p.address);
        out.append(t.as_str());
        match &p.regs {
            RegList::Cluster(clusters) => {
                let ghost cs = clusters_view(clusters@);
                let ghost mid = out@;
                let m = clusters.len();
                let mut j: usize = 0;
                assert(cs.take(0) =~= Seq::<ClusterView>::empty());
                while j < m
                    invariant
                        m == clusters@.len(),
                        cs == clusters_view(clusters@),
                        j <= m,
                        out@ == mid + spec_cluster_symbols(p.name@, p.address, cs.take(j as int)),
                    decreases m - j,
                {
                    let mut name = p.name.clone();
                    name.append("_");
                    name.append(clusters[j].name.as_str());
                    let t = symbol(name.as_str(), p.address);
                    out.append(t.as_str());
                    proof {
                        assert(cs.take(j + 1).drop_last() =~= cs.take(j as int));
                        assert(cs.take(j + 1).last() == cs[j as int]);
                    }
                    j = j + 1;
                }
                assert(cs.take(m as int) =~= cs);
            },
            RegList::Registers(_) => {},
        }
        proof {
            assert(ps.take(i + 1).drop_last() =~= ps.take(i as int));
            assert(ps.take(i + 1).last() == ps[i as int]);
        }
        i = i + 1;
    }
    assert(ps.take(n as int) =~= ps);
    out
}

/// An optional text as `{}` formats an `Option`: `Some(<text>)` or `None`.
pub open spec fn spec_show_opt(o: Option<String>) -> Seq<char> {
    match o {
        Some(s) => "Some("@ + s@ + ")"@,
        None => "None"@,
    }
}

/// A documentation line after the given prefix, where there is a text.
pub open spec fn spec_doc_line(prefix: Seq<char>, o: Option<String>) -> Seq<char> {
    match o {
        Some(s) => prefix + s@ + "\n"@,
        None => Seq::empty(),
    }
}

/// The line of a named value: its label (see `make_nice_enum`) and value.
pub open spec fn spec_macro_value(v: EnumeratedValue) -> Seq<char> {
    spec_doc_line("      /// "@, v.description) + "      "@ + spec_make_nice_enum(v) + " = "@ + v.value@ + ",\n"@
}

/// The lines of a list of named values.
pub open spec fn spec_macro_values(vs: Seq<EnumeratedValue>) -> Seq<char>
    decreases vs.len(),
{
    if vs.len() == 0 {
        Seq::empty()
    } else {
        spec_macro_values(vs.drop_last()) + spec_macro_value(vs.last())
    }
}

/// The access of a field: its own, or else the device's.
pub open spec fn field_access(d: Device, f: Field) -> Seq<char> {
    match f.access {
        Some(a) => a@,
        None => match d.access {
            Some(a) => a@,
            None => Seq::empty(),
        },
    }
}

/// The lines of a field: offset, access, width and name, then its named
/// values in braces where it has them.
pub open spec fn spec_macro_field(d: Device, f: Field) -> Seq<char> {
    spec_doc_line("      /// "@, f.description) + "    "@ + spec_decimal(f.bitOffset as nat) + " => "@ + spec_access(
        field_access(d, f),
    ) + "["@ + spec_decimal(f.bitWidth as nat) + "] "@ + f.name@ + match f.enumeratedValues {
        Some(ev) => " {\n"@ + spec_macro_values(ev.enumeratedValue@) + "    }"@,
        None => Seq::<char>::empty(),
    } + ",\n"@
}

/// A field that gives its own access is written with it, whatever the
/// device gives: its lines are the same under any two devices. A field
/// without one is written as if the device's access were its own.
pub proof fn lemma_field_access_own(d1: Device, d2: Device, f: Field)
    ensures
        f.access is Some ==> spec_macro_field(d1, f) == spec_macro_field(d2, f),
        f.access is None ==> spec_macro_field(d1, f) == spec_macro_field(d1, Field { access: d1.access, ..f }),
{
}

/// The lines of a list of fields.
pub open spec fn spec_macro_fields(d: Device, fs: Seq<Field>) -> Seq<char>
    decreases fs.len(),
{
    if fs.len() == 0 {
        Seq::empty()
    } else {
        spec_macro_fields(d, fs.drop_last()) + spec_macro_field(d, fs.last())
    }
}

/// The lines of a register: offset in hex, width, name, then its fields.
pub open spec fn spec_macro_register(d: Device, r: Register) -> Seq<char> {
    let size: usize = match r.size {
        Some(s) => s,
        None => 0,
    };
    spec_doc_line("  /// "@, r.description) + "  0x"@ + spec_hex(r.addressOffset as nat) + " => reg"@ + spec_decimal(
        size as nat,
    ) + " "@ + r.name@ + " {\n"@ + match r.fields {
        Some(fs) => spec_macro_fields(d, fs.field@),
        None => Seq::<char>::empty(),
    } + "  }\n"@ + "\n"@
}

/// The lines of a list of registers, in their order.
pub open spec fn spec_macro_registers(d: Device, rs: Seq<Register>) -> Seq<char>
    decreases rs.len(),
{
    if rs.len() == 0 {
        Seq::empty()
    } else {
        spec_macro_registers(d, rs.drop_last()) + spec_macro_register(d, rs.last())
    }
}

/// The offsets of a list of registers, as sort keys.
pub open spec fn offset_keys(rs: Seq<Register>) -> Seq<u64> {
    rs.map_values(|r: Register| r.addressOffset as u64)
}

/// The registers sorted by offset, stably.
pub open spec fn by_offset(rs: Seq<Register>) -> Seq<Register> {
    stable_order(offset_keys(rs)).map_values(|i: usize| rs[i as int])
}

/// The block of a peripheral: its description, its name, and its
/// registers sorted by offset.
pub open spec fn spec_macro_peripheral(d: Device, p: Peripheral) -> Seq<char> {
    "/// "@ + spec_show_opt(p.description) + "\n"@ + "peripheral "@ + p.name@ + " {\n"@ + match p.registers {
        Some(rs) => spec_macro_registers(d, by_offset(rs.register@)),
        None => Seq::<char>::empty(),
    } + "}\n"@ + "\n"@
}

/// The blocks of a list of peripherals, in their order.
pub open spec fn spec_macro_peripherals(d: Device, ps: Seq<Peripheral>) -> Seq<char>
    decreases ps.len(),
{
    if ps.len() == 0 {
        Seq::empty()
    } else {
        spec_macro_peripherals(d, ps.drop_last()) + spec_macro_peripheral(d, ps.last())
    }
}

/// The macro text of a device: a block per peripheral.
pub open spec fn spec_dump_macro(d: Device) -> Seq<char> {
    match d.peripherals {
        Some(ps) => spec_macro_peripherals(d, ps.peripheral@),
        None => Seq::empty(),
    }
}

/// Whether the named values of a field can be labelled: each one with a
/// description has a name.
pub open spec fn values_labelled(f: Field) -> bool {
    match f.enumeratedValues {
        Some(ev) => forall|k: int|
            0 <= k < ev.enumeratedValue@.len() ==> (#[trigger] ev.enumeratedValue@[k]).description is Some
                ==> ev.enumeratedValue@[k].name@.len() > 0,
        None => true,
    }
}

/// Whether a field can be written: it or the device gives its access, and
/// its named values can be labelled.
pub open spec fn field_writable(d: Device, f: Field) -> bool {
    &&& (f.access is Some || d.access is Some)
    &&& values_labelled(f)
}

/// The fields of a register.
pub open spec fn fields_of(r: Register) -> Seq<Field> {
    match r.fields {
        Some(fs) => fs.field@,
        None => Seq::empty(),
    }
}

/// The registers of a peripheral.
pub open spec fn registers_of(p: Peripheral) -> Seq<Register> {
    match p.registers {
        Some(rs) => rs.register@,
        None => Seq::empty(),
    }
}

/// The peripherals of a device.
pub open spec fn peripherals_of(d: Device) -> Seq<Peripheral> {
    match d.peripherals {
        Some(ps) => ps.peripheral@,
        None => Seq::empty(),
    }
}

/// Whether each field of a register can be written.
pub open spec fn register_writable(d: Device, r: Register) -> bool {
    forall|k: int| 0 <= k < fields_of(r).len() ==> field_writable(d, #[trigger] fields_of(r)[k])
}

/// Whether each register of a peripheral can be written.
pub open spec fn peripheral_writable(d: Device, p: Peripheral) -> bool {
    forall|k: int| 0 <= k < registers_of(p).len() ==> register_writable(d, #[trigger] registers_of(p)[k])
}

/// Whether each peripheral of the device can be written.
pub open spec fn macro_writable(d: Device) -> bool {
    forall|k: int| 0 <= k < peripherals_of(d).len() ==> peripheral_writable(d, #[trigger] peripherals_of(d)[k])
}

fn macro_value(v: &EnumeratedValue) -> (r: String)
    requires
        v.description is Some ==> v.name@.len() > 0,
    ensures
        r@ == spec_macro_value(*v),
{
    let mut out = String::new();
    match &v.description {
        Some(d) => {
            out.append("      /// ");
            out.append(d.as_str());
            out.append("\n");
        },
        None => {},
    }
    out.append("      ");
    let label = make_nice_enum(v);
    out.append(label.as_str());
    out.append(" = ");
    out.append(v.value.as_str());
    out.append(",\n");
    out
}

fn macro_field(device: &Device, f: &Field) -> (r: String)
    requires
        field_writable(*device, *f),
    ensures
        r@ == spec_macro_field(*device, *f),
{
    let mut out = String::new();
    match &f.description {
        Some(d) => {
            out.append("      /// ");
            out.append(d.as_str());
            out.append("\n");
        },
        None => {},
    }
    out.append("    ");
    let t = decimal(f.bitOffset);
    out.append(t.as_str());
    out.append(" => ");
    let a: &str = match &f.access {
        Some(a) => a.as_str(),
        None => match &device.access {
            Some(a) => a.as_str(),
            None => {
                assert(false);
                ""
            },
        },
    };
    assert(a@ == field_access(*device, *f));
    out.append(access(a));
    out.append("[");
    let t = decimal(f.bitWidth);
    out.append(t.as_str());
    out.append("] ");
    out.append(f.name.as_str());
    match &f.enumeratedValues {
        Some(ev) => {
            let mut block = String::from_str(" {\n");
            let ghost vs = ev.enumeratedValue@;
            let ghost head = block@;
            let n = ev.enumeratedValue.len();
            let mut i: usize = 0;
            assert(vs.take(0) =~= Seq::<EnumeratedValue>::empty());
            while i < n
                invariant
                    n == vs.len(),
                    vs == ev.enumeratedValue@,
                    values_labelled(*f),
                    f.enumeratedValues == Some(*ev),
                    i <= n,
                    block@ == head + spec_macro_values(vs.take(i as int)),
                decreases n - i,
            {
                assert(vs[i as int].description is Some ==> vs[i as int].name@.len() > 0);
                let t = macro_value(&ev.enumeratedValue[i]);
                block.append(t.as_str());
                proof {
                    assert(vs.take(i + 1).drop_last() =~= vs.take(i as int));
                    assert(vs.take(i + 1).last() == vs[i as int]);
                }
                i = i + 1;
            }
            assert(vs.take(n as int) =~= vs);
            block.append("    }");
            out.append(block.as_str());
        },
        None => {},
    }
    out.append(",\n");
    out
}

fn macro_register(device: &Device, r: &Register) -> (s: String)
    requires
        register_writable(*device, *r),
    ensures
        s@ == spec_macro_register(*device, *r),
{
    let mut out = String::new();
    match &r.description {
        Some(d) => {
            out.append("  /// ");
            out.append(d.as_str());
            out.append("\n");
        },
        None => {},
    }
    out.append("  0x");
    let t = hex(r.addressOffset as u64);
    out.append(t.as_str());
    out.append(" => reg");
    let size = match r.size {
        Some(s) => s,
        None => 0,
    };
    let t = decimal(size);
    out.append(t.as_str());
    out.append(" ");
    out.append(r.name.as_str());
    out.append(" {\n");
    match &r.fields {
        Some(fs) => {
            let ghost v = fs.field@;
            let ghost head = out@;
            let n = fs.field.len();
            let mut i: usize = 0;
            assert(v.take(0) =~= Seq::<Field>::empty());
            while i < n
                invariant
                    n == v.len(),
                    v == fs.field@,
                    r.fields == Some(*fs),
                    register_writable(*device, *r),
                    i <= n,
                    out@ == head + spec_macro_fields(*device, v.take(i as int)),
                decreases n - i,
            {
                assert(fields_of(*r) == v);
                assert(field_writable(*device, fields_of(*r)[i as int]));
                let t = macro_field(device, &fs.field[i]);
                out.append(t.as_str());
                proof {
                    assert(v.take(i + 1).drop_last() =~= v.take(i as int));
                    assert(v.take(i + 1).last() == v[i as int]);
                }
                i = i + 1;
            }
            assert(v.take(n as int) =~= v);
        },
        None => {},
    }
    out.append("  }\n");
    out.append("\n");
    out
}

fn macro_peripheral(device: &Device, p: &Peripheral) -> (s: String)
    requires
        peripheral_writable(*device, *p),
    ensures
        s@ == spec_macro_peripheral(*device, *p),
{
    let mut out = String::from_str("/// ");
    let show = match &p.description {
        Some(d) => {
            let mut t = String::from_str("Some(");
            t.append(d.as_str());
            t.append(")");
            t
        },
        None => String::from_str("None"),
    };
    out.append(show.as_str());
    out.append("\n");
    out.append("peripheral ");
    out.append(p.name.as_str());
    out.append(" {\n");
    match &p.registers {
        Some(rs) => {
            let ghost regs = rs.register@;
            let n = rs.register.len();
            let mut keys: Vec<u64> = Vec::new();
            let mut i: usize = 0;
            while i < n
                invariant
                    n == regs.len(),
                    regs == rs.register@,
                    i <= n,
                    keys@ == offset_keys(regs).take(i as int),
                decreases n - i,
            {
                keys.push(rs.register[i].addressOffset as u64);
                assert(keys@ =~= offset_keys(regs).take(i + 1));
                i = i + 1;
            }
            assert(keys@ =~= offset_keys(regs));
            let order = sort_order(&keys);
            let ghost sorted = by_offset(regs);
            let ghost head = out@;
            let mut j: usize = 0;
            assert(sorted.take(0) =~= Seq::<Register>::empty());
            while j < n
                invariant
                    n == regs.len(),
                    regs == rs.register@,
                    p.registers == Some(*rs),
                    peripheral_writable(*device, *p),
                    order@ == stable_order(offset_keys(regs)),
                    order@.len() == n,
                    forall|x: usize| #[trigger] order@.contains(x) <==> (x as int) < n,
                    sorted == by_offset(regs),
                    j <= n,
                    out@ == head + spec_macro_registers(*device, sorted.take(j as int)),
                decreases n - j,
            {
                let x = order[j];
                assert(order@.contains(x));
                assert(sorted[j as int] == regs[x as int]);
                assert(registers_of(*p) == regs);
                assert(register_writable(*device, registers_of(*p)[x as int]));
                let t = macro_register(device, &rs.register[x]);
                out.append(t.as_str());
                proof {
                    assert(sorted.take(j + 1).drop_last() =~= sorted.take(j as int));
                    assert(sorted.take(j + 1).last() == sorted[j as int]);
                }
                j = j + 1;
            }
            assert(sorted.take(n as int) =~= sorted);
        },
        None => {},
    }
    out.append("}\n");
    out.append("\n");
    out
}

/// Writes the macro text of a device (see `spec_dump_macro`).
pub fn dump_macro(device: Device) -> (r: String)
    requires
        macro_writable(device),
    ensures
        r@ == spec_dump_macro(device),
{
    let mut out = String::new();
    match &device.peripherals {
        Some(ps) => {
            let ghost v = ps.peripheral@;
            let n = ps.peripheral.len();
            let mut i: usize = 0;
            assert(v.take(0) =~= Seq::<Peripheral>::empty());
            while i < n
                invariant
                    n == v.len(),
                    v == ps.peripheral@,
                    device.peripherals == Some(*ps),
                    macro_writable(device),
                    i <= n,
                    out@ == spec_macro_peripherals(device, v.take(i as int)),
                decreases n - i,
            {
                assert(peripherals_of(device) == v);
                assert(peripheral_writable(device, peripherals_of(device)[i as int]));
                let t = macro_peripheral(&device, &ps.peripheral[i]);
                out.append(t.as_str());
                proof {
                    assert(v.take(i + 1).drop_last() =~= v.take(i as int));
                    assert(v.take(i + 1).last() == v[i as int]);
                }
                i = i + 1;
            }
            assert(v.take(n as int) =~= v);
        },
        None => {},
    }
    out
}

fn check_field_writable(device: &Device, f: &Field) -> (r: bool)
    ensures
        r == field_writable(*device, *f),
{
    if f.access.is_none() && device.access.is_none() {
        return false;
    }
    match &f.enumeratedValues {
        Some(ev) => {
            let vs = &ev.enumeratedValue;
            let mut m: usize = 0;
            while m < vs.len()
                invariant
                    m <= vs@.len(),
                    ev.enumeratedValue@ == vs@,
                    f.enumeratedValues == Some(*ev),
                    f.access is Some || device.access is Some,
                    forall|q: int| 0 <= q < m ==> (#[trigger] vs@[q]).description is Some ==> vs@[q].name@.len() > 0,
                decreases vs@.len() - m,
            {
                if vs[m].description.is_some() && vs[m].name.unicode_len() == 0 {
                    assert(ev.enumeratedValue@[m as int] == vs@[m as int]);
                    return false;
                }
                m = m + 1;
            }
            true
        },
        None => true,
    }
}

fn check_register_writable(device: &Device, r: &Register) -> (ok: bool)
    ensures
        ok == register_writable(*device, *r),
{
    match &r.fields {
        Some(fs) => {
            let v = &fs.field;
            assert(fields_of(*r) == v@);
            let mut k: usize = 0;
            while k < v.len()
                invariant
                    fields_of(*r) == v@,
                    k <= v@.len(),
                    forall|m: int| 0 <= m < k ==> field_writable(*device, #[trigger] v@[m]),
                decreases v@.len() - k,
            {
                if !check_field_writable(device, &v[k]) {
                    assert(!field_writable(*device, fields_of(*r)[k as int]));
                    return false;
                }
                k = k + 1;
            }
            true
        },
        None => true,
    }
}

fn check_peripheral_writable(device: &Device, p: &Peripheral) -> (ok: bool)
    ensures
        ok == peripheral_writable(*device, *p),
{
    match &p.registers {
        Some(rs) => {
            let v = &rs.register;
            assert(registers_of(*p) == v@);
            let mut k: usize = 0;
            while k < v.len()
                invariant
                    registers_of(*p) == v@,
                    k <= v@.len(),
                    forall|m: int| 0 <= m < k ==> register_writable(*device, #[trigger] v@[m]),
                decreases v@.len() - k,
            {
                if !check_register_writable(device, &v[k]) {
                    assert(!register_writable(*device, registers_of(*p)[k as int]));
                    return false;
                }
                k = k + 1;
            }
            true
        },
        None => true,
    }
}

/// Whether the macro text of a device can be written (see `macro_writable`):
/// every field has an access, its own or the device's, and every named
/// value with a description has a name.
pub fn check_macro_writable(device: &Device) -> (r: bool)
    ensures
        r == macro_writable(*device),
{
    match &device.peripherals {
        Some(ps) => {
            let v = &ps.peripheral;
            assert(peripherals_of(*device) == v@);
            let mut k: usize = 0;
            while k < v.len()
                invariant
                    peripherals_of(*device) == v@,
                    k <= v@.len(),
                    forall|m: int| 0 <= m < k ==> peripheral_writable(*device, #[trigger] v@[m]),
                decreases v@.len() - k,
            {
                if !check_peripheral_writable(device, &v[k]) {
                    assert(!peripheral_writable(*device, peripherals_of(*device)[k as int]));
                    return false;
                }
                k = k + 1;
            }
            true
        },
        None => true,
    }
}

/// Whether `small` stands somewhere in `big`.
pub open spec fn contains_text(big: Seq<char>, small: Seq<char>) -> bool {
    exists|a: Seq<char>, b: Seq<char>| big == a + small + b
}

/// The symbol line of the symbol `sym` at `address`.
pub open spec fn symbol_line(sym: Seq<char>, address: u32) -> Seq<char> {
    "\""@ + sym + "\" = 0x"@ + spec_hex(address as nat) + ";\n"@
}

proof fn lemma_contains_in(big: Seq<char>, mid: Seq<char>, small: Seq<char>, a: Seq<char>, b: Seq<char>)
    requires
        big == a + mid + b,
        contains_text(mid, small),
    ensures
        contains_text(big, small),
{
    let (c, d) = choose|c: Seq<char>, d: Seq<char>| mid == c + small + d;
    assert(big =~= (a + c) + small + (d + b));
}

proof fn lemma_contains_self(s: Seq<char>)
    ensures
        contains_text(s, s),
{
    assert(s =~= Seq::<char>::empty() + s + Seq::<char>::empty());
}

proof fn lemma_symbol_is_line(name: Seq<char>, address: u32)
    ensures
        spec_symbol(name, address) == symbol_line("SAMD21"@ + "_"@ + name, address),
{
    reveal_strlit("\"SAMD21_");
    reveal_strlit("\"");
    reveal_strlit("SAMD21");
    reveal_strlit("_");
    assert(spec_symbol(name, address) =~= symbol_line("SAMD21"@ + "_"@ + name, address));
}

proof fn lemma_cluster_symbols_contain(pname: Seq<char>, address: u32, cs: Seq<ClusterView>, j: int)
    requires
        0 <= j < cs.len(),
    ensures
        contains_text(spec_cluster_symbols(pname, address, cs), spec_symbol(pname + "_"@ + cs[j].name, address)),
    decreases cs.len(),
{
    let last = spec_symbol(pname + "_"@ + cs.last().name, address);
    let prev = spec_cluster_symbols(pname, address, cs.drop_last());
    if j == cs.len() - 1 {
        lemma_contains_self(last);
        lemma_contains_in(prev + last, last, last, prev, Seq::empty());
    } else {
        lemma_cluster_symbols_contain(pname, address, cs.drop_last(), j);
        assert(cs.drop_last()[j] == cs[j]);
        assert(prev + last =~= Seq::<char>::empty() + prev + last);
        lemma_contains_in(prev + last, prev, spec_symbol(pname + "_"@ + cs[j].name, address), Seq::empty(), last);
    }
}

proof fn lemma_dump_contains(ps: Seq<PeripheralView>, i: int, small: Seq<char>)
    requires
        0 <= i < ps.len(),
        contains_text(spec_peripheral_symbols(ps[i]), small),
    ensures
        contains_text(spec_dump_symbols(ps), small),
    decreases ps.len(),
{
    let last = spec_peripheral_symbols(ps.last());
    let prev = spec_dump_symbols(ps.drop_last());
    if i == ps.len() - 1 {
        lemma_contains_in(prev + last, last, small, prev, Seq::empty());
    } else {
        assert(ps.drop_last()[i] == ps[i]);
        lemma_dump_contains(ps.drop_last(), i, small);
        assert(prev + last =~= Seq::<char>::empty() + prev + last);
        lemma_contains_in(prev + last, prev, small, Seq::empty(), last);
    }
}

proof fn lemma_cluster_externs_contain(name: Seq<char>, p: PeripheralView, cs: Seq<ClusterView>, j: int)
    requires
        0 <= j < cs.len(),
    ensures
        contains_text(
            spec_cluster_externs(name, p, cs),
            spec_extern_static(name + "_"@ + p.name + "_"@ + cs[j].name, module_of(p) + "::"@ + cs[j].name + "::Cluster"@),
        ),
    decreases cs.len(),
{
    let c = cs.last();
    let last = spec_extern_static(name + "_"@ + p.name + "_"@ + c.name, module_of(p) + "::"@ + c.name + "::Cluster"@);
    let prev = spec_cluster_externs(name, p, cs.drop_last());
    if j == cs.len() - 1 {
        lemma_contains_self(last);
        lemma_contains_in(prev + last, last, last, prev, Seq::empty());
    } else {
        assert(cs.drop_last()[j] == cs[j]);
        lemma_cluster_externs_contain(name, p, cs.drop_last(), j);
        assert(prev + last =~= Seq::<char>::empty() + prev + last);
        lemma_contains_in(
            prev + last,
            prev,
            spec_extern_static(name + "_"@ + p.name + "_"@ + cs[j].name, module_of(p) + "::"@ + cs[j].name + "::Cluster"@),
            Seq::empty(),
            last,
        );
    }
}

proof fn lemma_system_contains(name: Seq<char>, ps: Seq<PeripheralView>, i: int, small: Seq<char>)
    requires
        0 <= i < ps.len(),
        contains_text(spec_system_externs_of(name, ps[i]), small),
    ensures
        contains_text(system_parts(name, ps).0, small),
    decreases ps.len(),
{
    let last = spec_system_externs_of(name, ps.last());
    let prev = system_parts(name, ps.drop_last()).0;
    assert(system_parts(name, ps).0 == prev + last);
    if i == ps.len() - 1 {
        lemma_contains_in(prev + last, last, small, prev, Seq::empty());
    } else {
        assert(ps.drop_last()[i] == ps[i]);
        lemma_system_contains(name, ps.drop_last(), i, small);
        assert(prev + last =~= Seq::<char>::empty() + prev + last);
        lemma_contains_in(prev + last, prev, small, Seq::empty(), last);
    }
}

proof fn lemma_items_contain(name: Seq<char>, ps: Seq<PeripheralView>, small: Seq<char>)
    requires
        contains_text(system_parts(name, ps).0, small),
    ensures
        contains_text(spec_generate_system(name, ps), small),
{
    let parts = system_parts(name, ps);
    let head = "#[allow(improper_ctypes)]\nextern \"C\" {\n"@;
    let tail = "}\n\n#[allow(non_snake_case)]\n#[derive(Clone, Copy)]\npub struct System {\n"@ + parts.1
        + "}\n\npub static SYS: System = System {\n"@ + parts.2 + "};\n"@;
    assert(spec_generate_system(name, ps) == spec_system_items(parts.0, parts.1, parts.2));
    assert(spec_system_items(parts.0, parts.1, parts.2) =~= head + parts.0 + tail);
    lemma_contains_in(spec_generate_system(name, ps), parts.0, small, head, tail);
}

/// Every link symbol that the system items of the system `SAMD21` declare
/// (see `generate_system`) has a line in the symbols (see `dump_symbols`)
/// at the address of its peripheral: for a peripheral with a register
/// table, its own symbol; for each cluster of a peripheral made of
/// clusters, the cluster's.
pub proof fn lemma_symbols_cover_system(ps: Seq<PeripheralView>, i: int, j: int)
    requires
        0 <= i < ps.len(),
    ensures
        ps[i].regs is Registers ==> {
            let sym = "SAMD21"@ + "_"@ + ps[i].name;
            &&& contains_text(
                spec_generate_system("SAMD21"@, ps),
                spec_extern_static(sym, module_of(ps[i]) + "::Peripheral"@),
            )
            &&& contains_text(spec_dump_symbols(ps), symbol_line(sym, ps[i].address))
        },
        ps[i].regs matches RegListView::Cluster(cs) ==> (0 <= j < cs.len() ==> {
            let sym = "SAMD21"@ + "_"@ + ps[i].name + "_"@ + cs[j].name;
            &&& contains_text(
                spec_generate_system("SAMD21"@, ps),
                spec_extern_static(sym, module_of(ps[i]) + "::"@ + cs[j].name + "::Cluster"@),
            )
            &&& contains_text(spec_dump_symbols(ps), symbol_line(sym, ps[i].address))
        }),
{
    let p = ps[i];
    let own = spec_symbol(p.name, p.address);
    match p.regs {
        RegListView::Registers(_) => {
            let sym = "SAMD21"@ + "_"@ + p.name;
            let ext = spec_extern_static(sym, module_of(p) + "::Peripheral"@);
            lemma_contains_self(ext);
            lemma_system_contains("SAMD21"@, ps, i, ext);
            lemma_items_contain("SAMD21"@, ps, ext);
            lemma_symbol_is_line(p.name, p.address);
            assert(spec_peripheral_symbols(p) =~= own + Seq::<char>::empty());
            assert(spec_peripheral_symbols(p) =~= Seq::<char>::empty() + own + Seq::<char>::empty());
            lemma_dump_contains(ps, i, symbol_line(sym, p.address));
        },
        RegListView::Cluster(cs) => {
            if 0 <= j < cs.len() {
                let sym = "SAMD21"@ + "_"@ + p.name + "_"@ + cs[j].name;
                let ext = spec_extern_static(sym, module_of(p) + "::"@ + cs[j].name + "::Cluster"@);
                lemma_cluster_externs_contain("SAMD21"@, p, cs, j);
                lemma_system_contains("SAMD21"@, ps, i, ext);
                lemma_items_contain("SAMD21"@, ps, ext);
                let line = spec_symbol(p.name + "_"@ + cs[j].name, p.address);
                lemma_cluster_symbols_contain(p.name, p.address, cs, j);
                lemma_symbol_is_line(p.name + "_"@ + cs[j].name, p.address);
                assert("SAMD21"@ + "_"@ + (p.name + "_"@ + cs[j].name) =~= sym);
                let rest = spec_cluster_symbols(p.name, p.address, cs);
                assert(spec_peripheral_symbols(p) == own + rest);
                assert(own + rest =~= own + rest + Seq::<char>::empty());
                lemma_contains_in(spec_peripheral_symbols(p), rest, line, own, Seq::empty());
                lemma_dump_contains(ps, i, line);
            }
        },
    }
}

} // verus!
