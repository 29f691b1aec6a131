//! The generator: from peripheral ASTs to the Rust code of their register
//! blocks, and to the system struct that ties them to their link symbols.

use vstd::prelude::*;
use crate::ast::{FieldAst, FieldView, RegisterAst, RegisterView, PeripheralAst, PeripheralView, RegList, RegListView, Cluster, ClusterView, clusters_view, peripherals_view};
use crate::omap::OffsetMap;
use crate::text::spec_decimal;
use crate::layout::{StructMatch, Slot, spec_layout, layout_registers, layout_end};
use crate::emit::{space_field, spec_space_field, space_default, spec_space_default, const_field, spec_const_field, reg_structfield, spec_reg_structfield, reg_default, spec_reg_default, struct_def, spec_struct_def, dim_accessor, spec_dim_accessor, value_fn, spec_value_fn, read_value_fn, spec_read_value_fn, enum_opt, spec_enum_opt, enum_arm, spec_enum_arm, enum_decl, spec_enum_decl, choice_fn, spec_choice_fn, read_choice_fn, spec_read_choice_fn, def_writer, spec_def_writer, def_read, spec_def_read, struct_impl, spec_struct_impl, reg_mod, spec_reg_mod, peripheral_registers, spec_peripheral_registers, cluster_struct, spec_cluster_struct, cluster_field, spec_cluster_field, peripheral_cluster, spec_peripheral_cluster, extern_static, spec_extern_static, system_field, spec_system_field, system_init, spec_system_init, cluster_init, spec_cluster_init, system_items, spec_system_items};

verus! {

/// The name of the integer type that holds a register of `width` bytes.
pub open spec fn reg_type(width: usize) -> Seq<char> {
    if width == 4 {
        "u32"@
    } else if width == 2 {
        "u16"@
    } else {
        "u8"@
    }
}

/// The cell of a register of 1, 2 or 4 bytes has an unsigned integer type
/// of exactly as many bits: its name is `u` followed by eight times the
/// width, in decimal.
pub proof fn lemma_cell_type_bits(width: usize)
    requires
        width == 1 || width == 2 || width == 4,
    ensures
        reg_type(width) == seq!['u'] + spec_decimal(8 * width as nat),
{
    reveal_strlit("u8");
    reveal_strlit("u16");
    reveal_strlit("u32");
    assert(spec_decimal(1) == seq!['1']);
    assert(spec_decimal(3) == seq!['3']);
    assert(spec_decimal(8) == seq!['8']);
    assert(spec_decimal(16) == spec_decimal(1).push('6'));
    assert(spec_decimal(32) == spec_decimal(3).push('2'));
    assert(reg_type(width) =~= seq!['u'] + spec_decimal(8 * width as nat));
}

pub(crate) fn reg_module_of(width: usize) -> (r: &'static str)
    ensures
        r@ == reg_type(width),
{
    if width == 4 {
        "u32"
    } else if width == 2 {
        "u16"
    } else {
        "u8"
    }
}

/// The declarations of the named values `ch` of a type.
pub open spec fn spec_opts(ch: Seq<(Seq<char>, usize)>) -> Seq<char>
    decreases ch.len(),
{
    if ch.len() == 0 {
        Seq::empty()
    } else {
        spec_opts(ch.drop_last()) + spec_enum_opt(ch.last().0, ch.last().1)
    }
}

/// The arms that map numbers back to the named values `ch` of type `fname`.
pub open spec fn spec_arms(fname: Seq<char>, ch: Seq<(Seq<char>, usize)>) -> Seq<char>
    decreases ch.len(),
{
    if ch.len() == 0 {
        Seq::empty()
    } else {
        spec_arms(fname, ch.drop_last()) + spec_enum_arm(fname, ch.last().0, ch.last().1)
    }
}

/// The mask constants of the fields `fs`.
pub open spec fn spec_consts(fs: Seq<(usize, FieldView)>) -> Seq<char>
    decreases fs.len(),
{
    if fs.len() == 0 {
        Seq::empty()
    } else {
        spec_consts(fs.drop_last()) + spec_const_field(fs.last().1.name, fs.last().1.width)
    }
}

/// The value type of a field, where it has named values.
pub open spec fn spec_field_enum(f: FieldView) -> Seq<char> {
    match f.enumerate {
        None => Seq::empty(),
        Some(ch) => spec_enum_decl(f.name, spec_opts(ch), spec_arms(f.name, ch)),
    }
}

/// The value types of the fields `fs`.
pub open spec fn spec_enums(fs: Seq<(usize, FieldView)>) -> Seq<char>
    decreases fs.len(),
{
    if fs.len() == 0 {
        Seq::empty()
    } else {
        spec_enums(fs.drop_last()) + spec_field_enum(fs.last().1)
    }
}

/// The write method of the field `f` at bit `pos` in the writer `kind`.
pub open spec fn spec_writer(kind: Seq<char>, method: Seq<char>, pos: usize, f: FieldView) -> Seq<char> {
    match f.enumerate {
        None => spec_value_fn(kind, f.name, method, pos),
        Some(_) => spec_choice_fn(kind, f.name, method, pos),
    }
}

/// The write methods of the fields `fs` in the writer `kind`.
pub open spec fn spec_writers(kind: Seq<char>, method: Seq<char>, fs: Seq<(usize, FieldView)>) -> Seq<char>
    decreases fs.len(),
{
    if fs.len() == 0 {
        Seq::empty()
    } else {
        spec_writers(kind, method, fs.drop_last()) + spec_writer(kind, method, fs.last().0, fs.last().1)
    }
}

/// The read method of the field `f` at bit `pos`.
pub open spec fn spec_reader(pos: usize, f: FieldView) -> Seq<char> {
    match f.enumerate {
        None => spec_read_value_fn(f.name, pos),
        Some(_) => spec_read_choice_fn(f.name, pos),
    }
}

/// The read methods of the fields `fs`.
pub open spec fn spec_readers(fs: Seq<(usize, FieldView)>) -> Seq<char>
    decreases fs.len(),
{
    if fs.len() == 0 {
        Seq::empty()
    } else {
        spec_readers(fs.drop_last()) + spec_reader(fs.last().0, fs.last().1)
    }
}

/// The module of the register `reg`, whose runtime library is at `path`.
pub open spec fn spec_register_module(reg: RegisterView) -> Seq<char> {
    let ty = reg_type(reg.width);
    spec_reg_mod(
        reg.name,
        spec_consts(reg.fields),
        spec_enums(reg.fields),
        spec_struct_def(ty),
        spec_struct_impl(ty),
        spec_def_writer("Update"@, "::svd"@, spec_writers("Update"@, "update_value"@, reg.fields)),
        spec_def_writer("Set"@, "::svd"@, spec_writers("Set"@, "set_value"@, reg.fields)),
        spec_def_read(ty, spec_readers(reg.fields)),
    )
}

/// The accessor of a register array, for a register that is one.
pub open spec fn spec_reg_impl(reg: RegisterView) -> Seq<char> {
    match reg.dim {
        Some((_, inc)) => spec_dim_accessor(reg.name, inc as usize),
        None => Seq::empty(),
    }
}

/// The number of gaps among the items `ss`.
pub open spec fn count_spaces(ss: Seq<Slot>) -> nat
    decreases ss.len(),
{
    if ss.len() == 0 {
        0
    } else {
        count_spaces(ss.drop_last()) + (if ss.last() is Space { 1nat } else { 0nat })
    }
}

/// The four texts of a register block with items `ss` over the table `es`:
/// the register modules, the struct fields, the array accessors and the
/// initial values. The gaps are numbered from 0 in order.
pub open spec fn regdefs(es: Seq<(usize, RegisterView)>, ss: Seq<Slot>) -> (Seq<char>, Seq<char>, Seq<char>, Seq<char>)
    decreases ss.len(),
{
    if ss.len() == 0 {
        (Seq::empty(), Seq::empty(), Seq::empty(), Seq::empty())
    } else {
        let prev = regdefs(es, ss.drop_last());
        match ss.last() {
            Slot::Space(n) => {
                let idx = count_spaces(ss.drop_last()) as usize;
                (prev.0, prev.1 + spec_space_field(idx, n as usize), prev.2, prev.3 + spec_space_default(idx, n as usize))
            },
            Slot::Reg(k) => {
                let reg = es[k].1;
                (
                    prev.0 + spec_register_module(reg),
                    prev.1 + spec_reg_structfield(reg.name),
                    prev.2 + spec_reg_impl(reg),
                    prev.3 + spec_reg_default(reg.name),
                )
            },
        }
    }
}

/// The four texts of the register block of the table `es`.
pub open spec fn spec_generate_regdefs(es: Seq<(usize, RegisterView)>) -> (Seq<char>, Seq<char>, Seq<char>, Seq<char>) {
    regdefs(es, spec_layout(es))
}

/// The four texts of a register block.
pub struct RegDefs {
    pub reg_mod: String,
    pub reg_structfields: String,
    pub reg_impl: String,
    pub reg_defaults: String,
}

impl View for RegDefs {
    type V = (Seq<char>, Seq<char>, Seq<char>, Seq<char>);

    open spec fn view(&self) -> (Seq<char>, Seq<char>, Seq<char>, Seq<char>) {
        (self.reg_mod@, self.reg_structfields@, self.reg_impl@, self.reg_defaults@)
    }
}

pub(crate) fn gen_opts(ch: &Vec<(String, usize)>) -> (r: String)
    ensures
        r@ == spec_opts(ch@.map_values(|p: (String, usize)| (p.0@, p.1))),
{
    let ghost v = ch@.map_values(|p: (String, usize)| (p.0@, p.1));
    let mut out = String::new();
    let mut i: usize = 0;
    assert(v.take(0) =~= Seq::<(Seq<char>, usize)>::empty());
    while i < ch.len()
        invariant
            0 <= i <= ch@.len(),
            v == ch@.map_values(|p: (String, usize)| (p.0@, p.1)),
            out@ == spec_opts(v.take(i as int)),
        decreases ch@.len() - i,
    {
        let piece = enum_opt(ch[i].0.as_str(), ch[i].1);
        out.append(piece.as_str());
        assert(v.take(i + 1).drop_last() == v.take(i as int));
        i = i + 1;
    }
    assert(v.take(i as int) == v);
    out
}

pub(crate) fn gen_arms(fname: &str, ch: &Vec<(String, usize)>) -> (r: String)
    ensures
        r@ == spec_arms(fname@, ch@.map_values(|p: (String, usize)| (p.0@, p.1))),
{
    let ghost v = ch@.map_values(|p: (String, usize)| (p.0@, p.1));
    let mut out = String::new();
    let mut i: usize = 0;
    assert(v.take(0) =~= Seq::<(Seq<char>, usize)>::empty());
    while i < ch.len()
        invariant
            0 <= i <= ch@.len(),
            v == ch@.map_values(|p: (String, usize)| (p.0@, p.1)),
            out@ == spec_arms(fname@, v.take(i as int)),
        decreases ch@.len() - i,
    {
        let piece = enum_arm(fname, ch[i].0.as_str(), ch[i].1);
        out.append(piece.as_str());
        assert(v.take(i + 1).drop_last() == v.take(i as int));
        i = i + 1;
    }
    assert(v.take(i as int) == v);
    out
}

/// The texts that the fields of a register give: mask constants, value
/// types, the write methods of the two writers, and the read methods.
struct FieldTexts {
    consts: String,
    enums: String,
    updates: String,
    sets: String,
    reads: String,
}

fn gen_field_texts(fields: &OffsetMap<FieldAst>) -> (r: FieldTexts)
    ensures
        r.consts@ == spec_consts(fields@),
        r.enums@ == spec_enums(fields@),
        r.updates@ == spec_writers("Update"@, "update_value"@, fields@),
        r.sets@ == spec_writers("Set"@, "set_value"@, fields@),
        r.reads@ == spec_readers(fields@),
{
    let ghost fs = fields@;
    let mut consts = String::new();
    let mut enums = String::new();
    let mut updates = String::new();
    let mut sets = String::new();
    let mut reads = String::new();
    let n = fields.len();
    let mut i: usize = 0;
    assert(fs.take(0) =~= Seq::<(usize, FieldView)>::empty());
    while i < n
        invariant
            n == fs.len(),
            fs == fields@,
            0 <= i <= n,
            consts@ == spec_consts(fs.take(i as int)),
            enums@ == spec_enums(fs.take(i as int)),
            updates@ == spec_writers("Update"@, "update_value"@, fs.take(i as int)),
            sets@ == spec_writers("Set"@, "set_value"@, fs.take(i as int)),
            reads@ == spec_readers(fs.take(i as int)),
        decreases n - i,
    {
        let pos = fields.key_at(i);
        let field = fields.value_at(i);
        let fname = field.name.as_str();
        let c = const_field(fname, field.width);
        consts.append(c.as_str());
        match &field.enumerate {
            None => {
                let u = value_fn("Update", fname, "update_value", pos);
                updates.append(u.as_str());
                let s = value_fn("Set", fname, "set_value", pos);
                sets.append(s.as_str());
                let rd = read_value_fn(fname, pos);
                reads.append(rd.as_str());
            },
            Some(choose) => {
                let opts = gen_opts(choose);
                let arms = gen_arms(fname, choose);
                let e = enum_decl(fname, opts.as_str(), arms.as_str());
                enums.append(e.as_str());
                let u = choice_fn("Update", fname, "update_value", pos);
                updates.append(u.as_str());
                let s = choice_fn("Set", fname, "set_value", pos);
                sets.append(s.as_str());
                let rd = read_choice_fn(fname, pos);
                reads.append(rd.as_str());
            },
        }
        assert(fs.take(i + 1).drop_last() == fs.take(i as int));
        assert(fs.take(i + 1).last() == fs[i as int]);
        i = i + 1;
    }
    assert(fs.take(n as int) == fs);
    FieldTexts { consts, enums, updates, sets, reads }
}

fn gen_register_module(reg: &RegisterAst) -> (r: String)
    ensures
        r@ == spec_register_module(reg@),
{
    let ty = reg_module_of(reg.width);
    let texts = gen_field_texts(&reg.fields);
    let def = struct_def(ty);
    let imp = struct_impl(ty);
    let upd = def_writer("Update", "::svd", texts.updates.as_str());
    let set = def_writer("Set", "::svd", texts.sets.as_str());
    let read = def_read(ty, texts.reads.as_str());
    reg_mod(
        reg.name.as_str(),
        texts.consts.as_str(),
        texts.enums.as_str(),
        def.as_str(),
        imp.as_str(),
        upd.as_str(),
        set.as_str(),
        read.as_str(),
    )
}

/// Writes the four texts of the register block of a register table: the
/// table is laid out (see `layout_registers`), each gap becomes a reserved
/// byte array numbered in order, each register its module, struct field,
/// initial value and, for an array, its accessor.
pub fn generate_regdefs(regmap: &OffsetMap<RegisterAst>) -> (r: RegDefs)
    requires
        layout_end(regmap@, 0, 0) <= usize::MAX,
    ensures
        r@ == spec_generate_regdefs(regmap@),
{
    let ghost es = regmap@;
    let regs = layout_registers(regmap);
    let ghost ss = regs@.map_values(|s: StructMatch| s@);
    let mut out = RegDefs {
        reg_mod: String::new(),
        reg_structfields: String::new(),
        reg_impl: String::new(),
        reg_defaults: String::new(),
    };
    let mut reserved_idx: usize = 0;
    let mut k: usize = 0;
    proof {
        crate::layout::lemma_layout_indices(es, 0, 0);
    }
    assert(ss.take(0) =~= Seq::<Slot>::empty());
    while k < regs.len()
        invariant
            0 <= k <= regs@.len(),
            ss == regs@.map_values(|s: StructMatch| s@),
            ss == spec_layout(es),
            es == regmap@,
            forall|j: int| 0 <= j < ss.len() ==> (#[trigger] ss[j] matches Slot::Reg(x) ==> 0 <= x < es.len()),
            reserved_idx == count_spaces(ss.take(k as int)),
            reserved_idx <= k,
            out@ == regdefs(es, ss.take(k as int)),
        decreases regs@.len() - k,
    {
        assert(ss.take(k + 1).drop_last() == ss.take(k as int));
        assert(ss.take(k + 1).last() == ss[k as int]);
        match &regs[k] {
            StructMatch::Space(len) => {
                let f = space_field(reserved_idx, *len);
                out.reg_structfields.append(f.as_str());
                let d = space_default(reserved_idx, *len);
                out.reg_defaults.append(d.as_str());
                reserved_idx = reserved_idx + 1;
            },
            StructMatch::Reg(i) => {
                let reg = regmap.value_at(*i);
                let m = gen_register_module(reg);
                out.reg_mod.append(m.as_str());
                let f = reg_structfield(reg.name.as_str());
                out.reg_structfields.append(f.as_str());
                match reg.dim {
                    Some((_, inc)) => {
                        let a = dim_accessor(reg.name.as_str(), inc as usize);
                        out.reg_impl.append(a.as_str());
                    },
                    None => {
                        assert(out.reg_impl@ + Seq::<char>::empty() == out.reg_impl@);
                    },
                }
                let d = reg_default(reg.name.as_str());
                out.reg_defaults.append(d.as_str());
            },
        }
        k = k + 1;
    }
    assert(ss.take(k as int) == ss);
    out
}


/// Whether the register tables of a peripheral can be laid out in memory.
pub open spec fn peripheral_fits(p: PeripheralView) -> bool {
    match p.regs {
        RegListView::Registers(m) => layout_end(m, 0, 0) <= usize::MAX,
        RegListView::Cluster(cs) => forall|i: int| 0 <= i < cs.len() ==> layout_end(#[trigger] cs[i].registers, 0, 0) <= usize::MAX,
    }
}

/// The modules of the clusters `cs`.
pub open spec fn spec_cluster_structs(cs: Seq<ClusterView>) -> Seq<char>
    decreases cs.len(),
{
    if cs.len() == 0 {
        Seq::empty()
    } else {
        let d = spec_generate_regdefs(cs.last().registers);
        spec_cluster_structs(cs.drop_last()) + spec_cluster_struct(cs.last().name, d.1, d.2, d.3, d.0)
    }
}

/// The fields of the list of clusters `cs`.
pub open spec fn spec_cluster_fields(cs: Seq<ClusterView>) -> Seq<char>
    decreases cs.len(),
{
    if cs.len() == 0 {
        Seq::empty()
    } else {
        spec_cluster_fields(cs.drop_last()) + spec_cluster_field(cs.last().name)
    }
}

/// The code of a peripheral: a module with its register block, or with
/// a module per cluster and the list of its clusters.
pub open spec fn spec_generate_peripheral(p: PeripheralView) -> Seq<char> {
    match p.regs {
        RegListView::Registers(m) => {
            let d = spec_generate_regdefs(m);
            spec_peripheral_registers(p.name, d.1, d.2, d.3, d.0)
        },
        RegListView::Cluster(cs) => spec_peripheral_cluster(p.name, spec_cluster_structs(cs), spec_cluster_fields(cs)),
    }
}

/// Writes the module of a peripheral with a register table: its register
/// block (see `generate_regdefs`) inside the module, struct, impl and `INIT`.
pub fn generate_peripheral_registers(peripheral: &PeripheralAst, registers: &OffsetMap<RegisterAst>) -> (r: String)
    requires
        layout_end(registers@, 0, 0) <= usize::MAX,
    ensures
        r@ == ({
            let d = spec_generate_regdefs(registers@);
            spec_peripheral_registers(peripheral.name@, d.1, d.2, d.3, d.0)
        }),
{
    let d = generate_regdefs(registers);
    peripheral_registers(
        peripheral.name.as_str(),
        d.reg_structfields.as_str(),
        d.reg_impl.as_str(),
        d.reg_defaults.as_str(),
        d.reg_mod.as_str(),
    )
}

fn generate_peripheral_cluster(peripheral: &PeripheralAst, clusters: &Vec<Cluster>) -> (r: String)
    requires
        forall|i: int| 0 <= i < clusters@.len() ==> layout_end(#[trigger] clusters@[i].registers@, 0, 0) <= usize::MAX,
    ensures
        r@ == spec_peripheral_cluster(
            peripheral.name@,
            spec_cluster_structs(clusters_view(clusters@)),
            spec_cluster_fields(clusters_view(clusters@)),
        ),
{
    let ghost cs = clusters_view(clusters@);
    let mut cluster_structs = String::new();
    let mut clusters_tokens = String::new();
    let mut i: usize = 0;
    assert(cs.take(0) =~= Seq::<ClusterView>::empty());
    while i < clusters.len()
        invariant
            0 <= i <= clusters@.len(),
            cs == clusters_view(clusters@),
            forall|j: int| 0 <= j < clusters@.len() ==> layout_end(#[trigger] clusters@[j].registers@, 0, 0) <= usize::MAX,
            cluster_structs@ == spec_cluster_structs(cs.take(i as int)),
            clusters_tokens@ == spec_cluster_fields(cs.take(i as int)),
        decreases clusters@.len() - i,
    {
        let cluster = &clusters[i];
        assert(clusters@[i as int] == *cluster);
        let d = generate_regdefs(&cluster.registers);
        let c = cluster_struct(
            cluster.name.as_str(),
            d.reg_structfields.as_str(),
            d.reg_impl.as_str(),
            d.reg_defaults.as_str(),
            d.reg_mod.as_str(),
        );
        cluster_structs.append(c.as_str());
        let t = cluster_field(cluster.name.as_str());
        clusters_tokens.append(t.as_str());
        assert(cs.take(i + 1).drop_last() == cs.take(i as int));
        assert(cs.take(i + 1).last() == cs[i as int]);
        i = i + 1;
    }
    assert(cs.take(i as int) == cs);
    peripheral_cluster(peripheral.name.as_str(), cluster_structs.as_str(), clusters_tokens.as_str())
}

/// Writes the code of a peripheral (see `spec_generate_peripheral`).
pub fn generate_peripheral(peripheral: &PeripheralAst) -> (r: String)
    requires
        peripheral_fits(peripheral@),
    ensures
        r@ == spec_generate_peripheral(peripheral@),
{
    match &peripheral.regs {
        RegList::Registers(registers) => generate_peripheral_registers(peripheral, registers),
        RegList::Cluster(clusters) => {
            assert forall|i: int| 0 <= i < clusters@.len() implies layout_end(#[trigger] clusters@[i].registers@, 0, 0) <= usize::MAX by {
                let cs = clusters_view(clusters@);
                assert(cs[i] == clusters@[i]@);
                assert(peripheral@.regs == RegListView::Cluster(cs));
                assert(peripheral_fits(peripheral@));
                if let RegListView::Cluster(cs2) = peripheral@.regs {
                    assert(cs2 == cs);
                    assert(layout_end(cs2[i].registers, 0, 0) <= usize::MAX);
                }
            }
            generate_peripheral_cluster(peripheral, clusters)
        },
    }
}

/// The name of the type module of a peripheral: the peripheral it derives
/// from, or its own.
pub open spec fn module_of(p: PeripheralView) -> Seq<char> {
    match p.derives {
        Some(d) => d,
        None => p.name,
    }
}

/// The link symbols and their types for the clusters `cs` of a peripheral.
pub open spec fn spec_cluster_externs(name: Seq<char>, p: PeripheralView, cs: Seq<ClusterView>) -> Seq<char>
    decreases cs.len(),
{
    if cs.len() == 0 {
        Seq::empty()
    } else {
        let c = cs.last();
        spec_cluster_externs(name, p, cs.drop_last()) + spec_extern_static(
            name + "_"@ + p.name + "_"@ + c.name,
            module_of(p) + "::"@ + c.name + "::Cluster"@,
        )
    }
}

/// The initial values of the clusters `cs` of a peripheral in its list of clusters.
pub open spec fn spec_cluster_inits(name: Seq<char>, p: PeripheralView, cs: Seq<ClusterView>) -> Seq<char>
    decreases cs.len(),
{
    if cs.len() == 0 {
        Seq::empty()
    } else {
        let c = cs.last();
        spec_cluster_inits(name, p, cs.drop_last()) + spec_cluster_init(c.name, name + "_"@ + p.name + "_"@ + c.name)
    }
}

/// The link symbols of a peripheral of the system `name`.
pub open spec fn spec_system_externs_of(name: Seq<char>, p: PeripheralView) -> Seq<char> {
    match p.regs {
        RegListView::Registers(_) => spec_extern_static(name + "_"@ + p.name, module_of(p) + "::Peripheral"@),
        RegListView::Cluster(cs) => spec_cluster_externs(name, p, cs),
    }
}

/// The field of a peripheral in the system struct.
pub open spec fn spec_system_field_of(p: PeripheralView) -> Seq<char> {
    match p.regs {
        RegListView::Registers(_) => spec_system_field(p.name, "&'static "@ + module_of(p) + "::Peripheral"@),
        RegListView::Cluster(_) => spec_system_field(p.name, module_of(p) + "::Clusters"@),
    }
}

/// The initial value of a peripheral in the system struct.
pub open spec fn spec_system_init_of(name: Seq<char>, p: PeripheralView) -> Seq<char> {
    match p.regs {
        RegListView::Registers(_) => spec_system_init(p.name, "&"@ + name + "_"@ + p.name),
        RegListView::Cluster(cs) => spec_system_init(
            p.name,
            module_of(p) + "::Clusters { "@ + spec_cluster_inits(name, p, cs) + "}"@,
        ),
    }
}

/// The three texts of the system items for the peripherals `ps`.
pub open spec fn system_parts(name: Seq<char>, ps: Seq<PeripheralView>) -> (Seq<char>, Seq<char>, Seq<char>)
    decreases ps.len(),
{
    if ps.len() == 0 {
        (Seq::empty(), Seq::empty(), Seq::empty())
    } else {
        let prev = system_parts(name, ps.drop_last());
        let p = ps.last();
        (prev.0 + spec_system_externs_of(name, p), prev.1 + spec_system_field_of(p), prev.2 + spec_system_init_of(name, p))
    }
}

/// The system items of the system `name` with the peripherals `ps`: the
/// link symbols, the system struct, and its static value.
pub open spec fn spec_generate_system(name: Seq<char>, ps: Seq<PeripheralView>) -> Seq<char> {
    let parts = system_parts(name, ps);
    spec_system_items(parts.0, parts.1, parts.2)
}

pub(crate) fn concat3(a: &str, b: &str, c: &str) -> (r: String)
    ensures
        r@ == a@ + b@ + c@,
{
    let mut out = String::from_str(a);
    out.append(b);
    out.append(c);
    out
}

fn system_externs_of(name: &str, p: &PeripheralAst) -> (r: String)
    ensures
        r@ == spec_system_externs_of(name@, p@),
{
    let ty = match &p.derives {
        Some(d) => d.as_str(),
        None => p.name.as_str(),
    };
    match &p.regs {
        RegList::Registers(_) => {
            let sym = concat3(name, "_", p.name.as_str());
            let t = concat3(ty, "::Peripheral", "");
            assert(t@ == ty@ + "::Peripheral"@ + ""@);
            proof {
                reveal_strlit("");
                assert(t@ =~= ty@ + "::Peripheral"@);
            }
            extern_static(sym.as_str(), t.as_str())
        },
        RegList::Cluster(clusters) => {
            let ghost cs = clusters_view(clusters@);
            let mut out = String::new();
            let mut i: usize = 0;
            assert(cs.take(0) =~= Seq::<ClusterView>::empty());
            while i < clusters.len()
                invariant
                    0 <= i <= clusters@.len(),
                    cs == clusters_view(clusters@),
                    p.regs@ == RegListView::Cluster(cs),
                    ty@ == module_of(p@),
                    out@ == spec_cluster_externs(name@, p@, cs.take(i as int)),
                decreases clusters@.len() - i,
            {
                let c = &clusters[i];
                assert(cs[i as int] == c@);
                let mut sym = concat3(name, "_", p.name.as_str());
                sym.append("_");
                sym.append(c.name.as_str());
                let mut t = concat3(ty, "::", c.name.as_str());
                t.append("::Cluster");
                let e = extern_static(sym.as_str(), t.as_str());
                out.append(e.as_str());
                assert(cs.take(i + 1).drop_last() == cs.take(i as int));
                assert(cs.take(i + 1).last() == cs[i as int]);
                i = i + 1;
            }
            assert(cs.take(i as int) == cs);
            out
        },
    }
}

fn system_init_of(name: &str, p: &PeripheralAst) -> (r: String)
    ensures
        r@ == spec_system_init_of(name@, p@),
{
    let ty = match &p.derives {
        Some(d) => d.as_str(),
        None => p.name.as_str(),
    };
    match &p.regs {
        RegList::Registers(_) => {
            let v = concat3("&", name, "_");
            let mut v2 = v;
            v2.append(p.name.as_str());
            system_init(p.name.as_str(), v2.as_str())
        },
        RegList::Cluster(clusters) => {
            let ghost cs = clusters_view(clusters@);
            let mut inits = String::new();
            let mut i: usize = 0;
            assert(cs.take(0) =~= Seq::<ClusterView>::empty());
            while i < clusters.len()
                invariant
                    0 <= i <= clusters@.len(),
                    cs == clusters_view(clusters@),
                    p.regs@ == RegListView::Cluster(cs),
                    inits@ == spec_cluster_inits(name@, p@, cs.take(i as int)),
                decreases clusters@.len() - i,
            {
                let c = &clusters[i];
                assert(cs[i as int] == c@);
                let mut sym = concat3(name, "_", p.name.as_str());
                sym.append("_");
                sym.append(c.name.as_str());
                let e = cluster_init(c.name.as_str(), sym.as_str());
                inits.append(e.as_str());
                assert(cs.take(i + 1).drop_last() == cs.take(i as int));
                assert(cs.take(i + 1).last() == cs[i as int]);
                i = i + 1;
            }
            assert(cs.take(i as int) == cs);
            let mut v = concat3(ty, "::Clusters { ", inits.as_str());
            v.append("}");
            system_init(p.name.as_str(), v.as_str())
        },
    }
}

fn system_field_of(p: &PeripheralAst) -> (r: String)
    ensures
        r@ == spec_system_field_of(p@),
{
    let ty = match &p.derives {
        Some(d) => d.as_str(),
        None => p.name.as_str(),
    };
    match &p.regs {
        RegList::Registers(_) => {
            let t = concat3("&'static ", ty, "::Peripheral");
            system_field(p.name.as_str(), t.as_str())
        },
        RegList::Cluster(_) => {
            let mut t = String::from_str(ty);
            t.append("::Clusters");
            system_field(p.name.as_str(), t.as_str())
        },
    }
}

/// Writes the system items of the system `name` with the given peripherals:
/// a link symbol per peripheral, or per cluster of a peripheral made of
/// clusters, typed by the module of the peripheral it derives from where it
/// does; the system struct with a field per peripheral; and its static value.
pub fn generate_system(name: &str, peripherals: &Vec<PeripheralAst>) -> (r: String)
    ensures
        r@ == spec_generate_system(name@, peripherals_view(peripherals@)),
{
    let ghost ps = peripherals_view(peripherals@);
    let mut fields_extern = String::new();
    let mut fields_system = String::new();
    let mut fields_init = String::new();
    let mut i: usize = 0;
    assert(ps.take(0) =~= Seq::<PeripheralView>::empty());
    while i < peripherals.len()
        invariant
            0 <= i <= peripherals@.len(),
            ps == peripherals_view(peripherals@),
            (fields_extern@, fields_system@, fields_init@) == system_parts(name@, ps.take(i as int)),
        decreases peripherals@.len() - i,
    {
        let p = &peripherals[i];
        assert(ps[i as int] == p@);
        let e = system_externs_of(name, p);
        fields_extern.append(e.as_str());
        let f = system_field_of(p);
        fields_system.append(f.as_str());
        let v = system_init_of(name, p);
        fields_init.append(v.as_str());
        assert(ps.take(i + 1).drop_last() == ps.take(i as int));
        assert(ps.take(i + 1).last() == ps[i as int]);
        i = i + 1;
    }
    assert(ps.take(i as int) == ps);
    system_items(fields_extern.as_str(), fields_system.as_str(), fields_init.as_str())
}

} // verus!
