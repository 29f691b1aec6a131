//! The first generation of the generator: from a peripheral AST to the Rust
//! code of its register block, and to the system struct of a named system.

use vstd::prelude::*;
use crate::foo::ast::{FieldAst, RegisterAst, RegisterView, PeripheralAst, PeripheralView};
use crate::ast::FieldView;
use crate::omap::OffsetMap;
use crate::layout::{StructMatch, Slot, spaces, max, layout_from, layout_end, spec_layout, lemma_layout_end_grows};
use crate::generator::{reg_type, reg_module_of, spec_opts, spec_arms, gen_opts, gen_arms, count_spaces, concat3};
use crate::emit::{space_field, spec_space_field, space_default, spec_space_default, reg_structfield,
    spec_reg_structfield, reg_default, spec_reg_default, reg_mod, spec_reg_mod, extern_static, spec_extern_static,
    system_field, spec_system_field, system_init, spec_system_init, system_items, spec_system_items};
use crate::foo::emit::{foo_const_field, spec_foo_const_field, foo_struct_def, spec_foo_struct_def, foo_update_fn,
    spec_foo_update_fn, foo_set_fn, spec_foo_set_fn, foo_read_fn, spec_foo_read_fn, foo_choice_fn,
    spec_foo_choice_fn, foo_read_choice_fn, spec_foo_read_choice_fn, foo_enum_decl, spec_foo_enum_decl,
    foo_def_writer, spec_foo_def_writer, foo_def_read, spec_foo_def_read, foo_struct_impl, spec_foo_struct_impl,
    foo_peripheral, spec_foo_peripheral};

verus! {

/// The register table as the layout reads it: the offsets and widths.
pub open spec fn layout_table(es: Seq<(usize, RegisterView)>) -> Seq<(usize, crate::ast::RegisterView)> {
    es.map_values(
        |e: (usize, RegisterView)|
            (e.0, crate::ast::RegisterView { name: e.1.name, fields: Seq::empty(), width: e.1.width, dim: None }),
    )
}

/// Lays out a register table (see `spec_layout`): each register at its
/// offset, the gaps before it filled with reserved arrays of at most 32 bytes.
pub fn layout_foo_registers(regmap: &OffsetMap<RegisterAst>) -> (regs: Vec<StructMatch>)
    requires
        layout_end(layout_table(regmap@), 0, 0) <= usize::MAX,
    ensures
        regs@.map_values(|s: StructMatch| s@) == spec_layout(layout_table(regmap@)),
{
    let ghost es = layout_table(regmap@);
    let n = regmap.len();
    let mut regs: Vec<StructMatch> = Vec::new();
    let mut byte_idx: usize = 0;
    let mut i: usize = 0;
    assert(regs@.map_values(|s: StructMatch| s@) =~= Seq::<Slot>::empty());
    while i < n
        invariant
            n == es.len(),
            es == layout_table(regmap@),
            0 <= i <= n,
            layout_end(es, i as int, byte_idx as int) == layout_end(es, 0, 0),
            layout_end(es, 0, 0) <= usize::MAX,
            regs@.map_values(|s: StructMatch| s@) + layout_from(es, i as int, byte_idx as int) == spec_layout(es),
        decreases n - i,
    {
        let pos = regmap.key_at(i);
        let width = regmap.value_at(i).width;
        assert(es[i as int].0 == pos && es[i as int].1.width == width);
        proof {
            lemma_layout_end_grows(es, i as int, byte_idx as int);
        }
        let ghost start = max(pos as int, byte_idx as int);
        let ghost tail = seq![Slot::Reg(i as int)] + layout_from(es, i + 1, start + width);
        assert(layout_from(es, i as int, byte_idx as int)
            == (if pos > byte_idx { spaces((pos - byte_idx) as nat) } else { Seq::empty() }) + tail);
        if pos > byte_idx {
            let mut len = pos - byte_idx;
            while len > 0
                invariant
                    byte_idx + len == pos,
                    regs@.map_values(|s: StructMatch| s@) + spaces(len as nat) + tail == spec_layout(es),
                decreases len,
            {
                let sub_len: usize = if len > 32 { 32 } else { len };
                let ghost before = regs@.map_values(|s: StructMatch| s@);
                regs.push(StructMatch::Space(sub_len));
                proof {
                    assert(regs@.map_values(|s: StructMatch| s@) =~= before.push(Slot::Space(sub_len as nat)));
                    let rest = if len > 32 { spaces((len - 32) as nat) } else { Seq::empty() };
                    assert(spaces(len as nat) == seq![Slot::Space(sub_len as nat)] + rest);
                    assert(before + spaces(len as nat) + tail =~= before.push(Slot::Space(sub_len as nat)) + rest
                        + tail);
                    if len <= 32 {
                        assert(spaces(0) == Seq::<Slot>::empty());
                    }
                }
                byte_idx = byte_idx + sub_len;
                len = len - sub_len;
            }
            proof {
                assert(spaces(0) == Seq::<Slot>::empty());
            }
        } else {
            assert(Seq::<Slot>::empty() + tail == tail);
        }
        let ghost before = regs@.map_values(|s: StructMatch| s@);
        regs.push(StructMatch::Reg(i));
        proof {
            assert(regs@.map_values(|s: StructMatch| s@) =~= before.push(Slot::Reg(i as int)));
            assert(before + tail =~= before.push(Slot::Reg(i as int)) + layout_from(es, i + 1, start + width));
        }
        byte_idx = byte_idx + width;
        i = i + 1;
    }
    assert(layout_from(es, n as int, byte_idx as int) == Seq::<Slot>::empty());
    assert(regs@.map_values(|s: StructMatch| s@) + Seq::<Slot>::empty() == regs@.map_values(|s: StructMatch| s@));
    regs
}

/// The mask constants of the fields `fs`.
pub open spec fn spec_foo_consts(fs: Seq<(usize, FieldView)>) -> Seq<char>
    decreases fs.len(),
{
    if fs.len() == 0 {
        Seq::empty()
    } else {
        spec_foo_consts(fs.drop_last()) + spec_foo_const_field(fs.last().1.name, fs.last().1.width)
    }
}

/// The value type of a field, where it has named values.
pub open spec fn spec_foo_field_enum(f: FieldView) -> Seq<char> {
    match f.enumerate {
        None => Seq::empty(),
        Some(ch) => spec_foo_enum_decl(f.name, spec_opts(ch), spec_arms(f.name, ch)),
    }
}

/// The value types of the fields `fs`.
pub open spec fn spec_foo_enums(fs: Seq<(usize, FieldView)>) -> Seq<char>
    decreases fs.len(),
{
    if fs.len() == 0 {
        Seq::empty()
    } else {
        spec_foo_enums(fs.drop_last()) + spec_foo_field_enum(fs.last().1)
    }
}

/// The update method of the field `f` at bit `pos`.
pub open spec fn spec_foo_updater(pos: usize, f: FieldView) -> Seq<char> {
    match f.enumerate {
        None => spec_foo_update_fn(f.name, pos),
        Some(_) => spec_foo_choice_fn("Update"@, f.name, "update_value"@, pos),
    }
}

/// The set method of the field `f` at bit `pos`: for a plain field, one
/// that sets all of its bits.
pub open spec fn spec_foo_setter(pos: usize, f: FieldView) -> Seq<char> {
    match f.enumerate {
        None => spec_foo_set_fn(f.name, pos),
        Some(_) => spec_foo_choice_fn("Set"@, f.name, "set_value"@, pos),
    }
}

/// The read method of the field `f` at bit `pos`.
pub open spec fn spec_foo_reader(pos: usize, f: FieldView) -> Seq<char> {
    match f.enumerate {
        None => spec_foo_read_fn(f.name, pos),
        Some(_) => spec_foo_read_choice_fn(f.name, pos),
    }
}

/// The update methods of the fields `fs`.
pub open spec fn spec_foo_updaters(fs: Seq<(usize, FieldView)>) -> Seq<char>
    decreases fs.len(),
{
    if fs.len() == 0 {
        Seq::empty()
    } else {
        spec_foo_updaters(fs.drop_last()) + spec_foo_updater(fs.last().0, fs.last().1)
    }
}

/// The set methods of the fields `fs`.
pub open spec fn spec_foo_setters(fs: Seq<(usize, FieldView)>) -> Seq<char>
    decreases fs.len(),
{
    if fs.len() == 0 {
        Seq::empty()
    } else {
        spec_foo_setters(fs.drop_last()) + spec_foo_setter(fs.last().0, fs.last().1)
    }
}

/// The read methods of the fields `fs`.
pub open spec fn spec_foo_readers(fs: Seq<(usize, FieldView)>) -> Seq<char>
    decreases fs.len(),
{
    if fs.len() == 0 {
        Seq::empty()
    } else {
        spec_foo_readers(fs.drop_last()) + spec_foo_reader(fs.last().0, fs.last().1)
    }
}

/// The module of the register `reg`.
pub open spec fn spec_foo_register_module(reg: RegisterView) -> Seq<char> {
    let ty = reg_type(reg.width);
    spec_reg_mod(
        reg.name,
        spec_foo_consts(reg.fields),
        spec_foo_enums(reg.fields),
        spec_foo_struct_def(ty),
        spec_foo_struct_impl(ty),
        spec_foo_def_writer("Update"@, spec_foo_updaters(reg.fields)),
        spec_foo_def_writer("Set"@, spec_foo_setters(reg.fields)),
        spec_foo_def_read(ty, spec_foo_readers(reg.fields)),
    )
}

/// The three texts of a register block with items `ss` over the table `es`:
/// the register modules, the struct fields and the initial values. The gaps
/// are numbered from 0 in order.
pub open spec fn foo_regdefs(es: Seq<(usize, RegisterView)>, ss: Seq<Slot>) -> (Seq<char>, Seq<char>, Seq<char>)
    decreases ss.len(),
{
    if ss.len() == 0 {
        (Seq::empty(), Seq::empty(), Seq::empty())
    } else {
        let prev = foo_regdefs(es, ss.drop_last());
        match ss.last() {
            Slot::Space(n) => {
                let idx = count_spaces(ss.drop_last()) as usize;
                (prev.0, prev.1 + spec_space_field(idx, n as usize), prev.2 + spec_space_default(idx, n as usize))
            },
            Slot::Reg(k) => {
                let reg = es[k].1;
                (
                    prev.0 + spec_foo_register_module(reg),
                    prev.1 + spec_reg_structfield(reg.name),
                    prev.2 + spec_reg_default(reg.name),
                )
            },
        }
    }
}

/// The code of a peripheral: a module with the struct of its register
/// block laid out by offset, its initial value, and a module per register.
pub open spec fn spec_generate_peripheral(p: PeripheralView) -> Seq<char> {
    let d = foo_regdefs(p.regs, spec_layout(layout_table(p.regs)));
    spec_foo_peripheral(p.name, d.1, d.2, d.0)
}

/// Whether the register table of a peripheral can be laid out in memory.
pub open spec fn peripheral_fits(p: PeripheralView) -> bool {
    layout_end(layout_table(p.regs), 0, 0) <= usize::MAX
}

struct FieldTexts {
    consts: String,
    enums: String,
    updates: String,
    sets: String,
    reads: String,
}

fn gen_field_texts(fields: &OffsetMap<FieldAst>) -> (r: FieldTexts)
    ensures
        r.consts@ == spec_foo_consts(fields@),
        r.enums@ == spec_foo_enums(fields@),
        r.updates@ == spec_foo_updaters(fields@),
        r.sets@ == spec_foo_setters(fields@),
        r.reads@ == spec_foo_readers(fields@),
{
    let ghost fs = fields@;
    let mut consts = String::new();
    let mut enums = String::new();
    let mut updates = String::new();
    let mut sets = String::new();
    let mut reads = String::new();
    let n = fields.len();
    let mut i: usize = 0;
    assert(fs.take(0) =~= Seq::<(usize, FieldView)>::empty());
    while i < n
        invariant
            n == fs.len(),
            fs == fields@,
            0 <= i <= n,
            consts@ == spec_foo_consts(fs.take(i as int)),
            enums@ == spec_foo_enums(fs.take(i as int)),
            updates@ == spec_foo_updaters(fs.take(i as int)),
            sets@ == spec_foo_setters(fs.take(i as int)),
            reads@ == spec_foo_readers(fs.take(i as int)),
        decreases n - i,
    {
        let pos = fields.key_at(i);
        let field = fields.value_at(i);
        let fname = field.name.as_str();
        let c = foo_const_field(fname, field.width);
        consts.append(c.as_str());
        match &field.enumerate {
            None => {
                let u = foo_update_fn(fname, pos);
                updates.append(u.as_str());
                let s = foo_set_fn(fname, pos);
                sets.append(s.as_str());
                let rd = foo_read_fn(fname, pos);
                reads.append(rd.as_str());
            },
            Some(choose) => {
                let opts = gen_opts(choose);
                let arms = gen_arms(fname, choose);
                let e = foo_enum_decl(fname, opts.as_str(), arms.as_str());
                enums.append(e.as_str());
                let u = foo_choice_fn("Update", fname, "update_value", pos);
                updates.append(u.as_str());
                let s = foo_choice_fn("Set", fname, "set_value", pos);
                sets.append(s.as_str());
                let rd = foo_read_choice_fn(fname, pos);
                reads.append(rd.as_str());
            },
        }
        assert(fs.take(i + 1).drop_last() == fs.take(i as int));
        assert(fs.take(i + 1).last() == fs[i as int]);
        i = i + 1;
    }
    assert(fs.take(n as int) == fs);
    FieldTexts { consts, enums, updates, sets, reads }
}

fn gen_register_module(reg: &RegisterAst) -> (r: String)
    ensures
        r@ == spec_foo_register_module(reg@),
{
    let ty = reg_module_of(reg.width);
    let texts = gen_field_texts(&reg.fields);
    let def = foo_struct_def(ty);
    let imp = foo_struct_impl(ty);
    let upd = foo_def_writer("Update", texts.updates.as_str());
    let set = foo_def_writer("Set", texts.sets.as_str());
    let read = foo_def_read(ty, texts.reads.as_str());
    reg_mod(
        reg.name.as_str(),
        texts.consts.as_str(),
        texts.enums.as_str(),
        def.as_str(),
        imp.as_str(),
        upd.as_str(),
        set.as_str(),
        read.as_str(),
    )
}

/// Writes the code of a peripheral (see `spec_generate_peripheral`): its
/// register table laid out by offset, each gap a reserved byte array
/// numbered in order, each register its module, struct field and initial
/// value.
pub fn generate_peripheral(peripheral: &PeripheralAst) -> (r: String)
    requires
        peripheral_fits(peripheral@),
    ensures
        r@ == spec_generate_peripheral(peripheral@),
{
    let ghost es = peripheral.regs@;
    let regs = layout_foo_registers(&peripheral.regs);
    let ghost ss = regs@.map_values(|s: StructMatch| s@);
    let mut reg_mods = String::new();
    let mut reg_structfields = String::new();
    let mut reg_defaults = String::new();
    let mut reserved_idx: usize = 0;
    let mut k: usize = 0;
    proof {
        crate::layout::lemma_layout_indices(layout_table(es), 0, 0);
    }
    assert(ss.take(0) =~= Seq::<Slot>::empty());
    while k < regs.len()
        invariant
            0 <= k <= regs@.len(),
            ss == regs@.map_values(|s: StructMatch| s@),
            ss == spec_layout(layout_table(es)),
            es == peripheral.regs@,
            layout_table(es).len() == es.len(),
            forall|j: int| 0 <= j < ss.len() ==> (#[trigger] ss[j] matches Slot::Reg(x) ==> 0 <= x < layout_table(es).len()),
            reserved_idx == count_spaces(ss.take(k as int)),
            reserved_idx <= k,
            (reg_mods@, reg_structfields@, reg_defaults@) == foo_regdefs(es, ss.take(k as int)),
        decreases regs@.len() - k,
    {
        assert(ss.take(k + 1).drop_last() == ss.take(k as int));
        assert(ss.take(k + 1).last() == ss[k as int]);
        match &regs[k] {
            StructMatch::Space(len) => {
                let f = space_field(reserved_idx, *len);
                reg_structfields.append(f.as_str());
                let d = space_default(reserved_idx, *len);
                reg_defaults.append(d.as_str());
                reserved_idx = reserved_idx + 1;
            },
            StructMatch::Reg(i) => {
                let reg = peripheral.regs.value_at(*i);
                let m = gen_register_module(reg);
                reg_mods.append(m.as_str());
                let f = reg_structfield(reg.name.as_str());
                reg_structfields.append(f.as_str());
                let d = reg_default(reg.name.as_str());
                reg_defaults.append(d.as_str());
            },
        }
        k = k + 1;
    }
    assert(ss.take(k as int) == ss);
    foo_peripheral(peripheral.name.as_str(), reg_structfields.as_str(), reg_defaults.as_str(), reg_mods.as_str())
}

/// The three texts of the system items of the system `name` for the
/// peripherals `ps`: link symbols, struct fields and initial values.
pub open spec fn system_parts(name: Seq<char>, ps: Seq<PeripheralView>) -> (Seq<char>, Seq<char>, Seq<char>)
    decreases ps.len(),
{
    if ps.len() == 0 {
        (Seq::empty(), Seq::empty(), Seq::empty())
    } else {
        let prev = system_parts(name, ps.drop_last());
        let p = ps.last();
        (
            prev.0 + spec_extern_static(name + "_"@ + p.name, p.name + "::Peripheral"@),
            prev.1 + spec_system_field(p.name, "&'static "@ + p.name + "::Peripheral"@),
            prev.2 + spec_system_init(p.name, "&"@ + name + "_"@ + p.name),
        )
    }
}

/// The system items of the system `name`: a link symbol `<name>_<peripheral>`
/// per peripheral, the system struct with a field per peripheral, and its
/// static value.
pub open spec fn spec_generate_system(name: Seq<char>, ps: Seq<PeripheralView>) -> Seq<char> {
    let parts = system_parts(name, ps);
    spec_system_items(parts.0, parts.1, parts.2)
}

/// The models of a list of peripherals.
pub open spec fn foo_peripherals_view(v: Seq<PeripheralAst>) -> Seq<PeripheralView> {
    v.map_values(|p: PeripheralAst| p@)
}

/// Writes the system items of the system `name` (see `spec_generate_system`).
pub fn generate_system(name: String, peripherals: &Vec<PeripheralAst>) -> (r: String)
    ensures
        r@ == spec_generate_system(name@, foo_peripherals_view(peripherals@)),
{
    let ghost ps = foo_peripherals_view(peripherals@);
    let mut fields_extern = String::new();
    let mut fields_system = String::new();
    let mut fields_init = String::new();
    let mut i: usize = 0;
    assert(ps.take(0) =~= Seq::<PeripheralView>::empty());
    while i < peripherals.len()
        invariant
            0 <= i <= peripherals@.len(),
            ps == foo_peripherals_view(peripherals@),
            (fields_extern@, fields_system@, fields_init@) == system_parts(name@, ps.take(i as int)),
        decreases peripherals@.len() - i,
    {
        let p = &peripherals[i];
        assert(ps[i as int] == p@);
        let pname = p.name.as_str();
        let sym = concat3(name.as_str(), "_", pname);
        let mut ty = String::from_str(pname);
        ty.append("::Peripheral");
        let e = extern_static(sym.as_str(), ty.as_str());
        fields_extern.append(e.as_str());
        let t = concat3("&'static ", pname, "::Peripheral");
        let f = system_field(pname, t.as_str());
        fields_system.append(f.as_str());
        let mut v = concat3("&", name.as_str(), "_");
        v.append(pname);
        let s = system_init(pname, v.as_str());
        fields_init.append(s.as_str());
        assert(ps.take(i + 1).drop_last() == ps.take(i as int));
        assert(ps.take(i + 1).last() == ps[i as int]);
        i = i + 1;
    }
    assert(ps.take(i as int) == ps);
    system_items(fields_extern.as_str(), fields_system.as_str(), fields_init.as_str())
}

} // verus!
