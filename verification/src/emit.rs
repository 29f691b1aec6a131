//! Text templates of the generated register code, each with the spec of
//! the text it writes.

use vstd::prelude::*;
use crate::text::{decimal, spec_decimal};

verus! {

/// The struct field of a reserved gap.
pub open spec fn spec_space_field(idx: usize, len: usize) -> Seq<char> {
    "reserved_"@ + spec_decimal(idx as nat) + ": [u8; "@ + spec_decimal(len as nat) + "],\n"@
}

/// Writes the struct field of a reserved gap.
pub fn space_field(idx: usize, len: usize) -> (r: String)
    ensures
        r@ == spec_space_field(idx, len),
{
    let mut out = String::from_str("reserved_");
    let t = decimal(idx);
    out.append(t.as_str());
    out.append(": [u8; ");
    let t = decimal(len);
    out.append(t.as_str());
    out.append("],\n");
    out
}

/// The initial value of a reserved gap.
pub open spec fn spec_space_default(idx: usize, len: usize) -> Seq<char> {
    "reserved_"@ + spec_decimal(idx as nat) + ": [0; "@ + spec_decimal(len as nat) + "],\n"@
}

/// Writes the initial value of a reserved gap.
pub fn space_default(idx: usize, len: usize) -> (r: String)
    ensures
        r@ == spec_space_default(idx, len),
{
    let mut out = String::from_str("reserved_");
    let t = decimal(idx);
    out.append(t.as_str());
    out.append(": [0; ");
    let t = decimal(len);
    out.append(t.as_str());
    out.append("],\n");
    out
}

/// The mask constant of a field.
pub open spec fn spec_const_field(fname: Seq<char>, width: usize) -> Seq<char> {
    "const "@ + fname + ": ::svd::regs::RegField = ::svd::regs::RegField { width: "@ + spec_decimal(width as nat) + " };\n"@
}

/// Writes the mask constant of a field.
pub fn const_field(fname: &str, width: usize) -> (r: String)
    ensures
        r@ == spec_const_field(fname@, width),
{
    let mut out = String::from_str("const ");
    out.append(fname);
    out.append(": ::svd::regs::RegField = ::svd::regs::RegField { width: ");
    let t = decimal(width);
    out.append(t.as_str());
    out.append(" };\n");
    out
}

/// The struct field of a register.
pub open spec fn spec_reg_structfield(name: Seq<char>) -> Seq<char> {
    "pub "@ + name + ": "@ + name + "::Reg,\n"@
}

/// Writes the struct field of a register.
pub fn reg_structfield(name: &str) -> (r: String)
    ensures
        r@ == spec_reg_structfield(name@),
{
    let mut out = String::from_str("pub ");
    out.append(name);
    out.append(": ");
    out.append(name);
    out.append("::Reg,\n");
    out
}

/// The initial value of a register.
pub open spec fn spec_reg_default(name: Seq<char>) -> Seq<char> {
    name + ": "@ + name + "::INIT,\n"@
}

/// Writes the initial value of a register.
pub fn reg_default(name: &str) -> (r: String)
    ensures
        r@ == spec_reg_default(name@),
{
    let mut out = String::new();
    out.append(name);
    out.append(": ");
    out.append(name);
    out.append("::INIT,\n");
    out
}

/// The cell type of a register.
pub open spec fn spec_struct_def(ty: Seq<char>) -> Seq<char> {
    "#[repr(C)]\npub struct Reg {\n    pub field: UnsafeCell<"@ + ty + ">,\n}\n\nunsafe impl Sync for Reg {}\n\npub const INIT: Reg = Reg { field: UnsafeCell::new(0) };\n\n"@
}

/// Writes the cell type of a register.
pub fn struct_def(ty: &str) -> (r: String)
    ensures
        r@ == spec_struct_def(ty@),
{
    let mut out = String::from_str("#[repr(C)]\npub struct Reg {\n    pub field: UnsafeCell<");
    out.append(ty);
    out.append(">,\n}\n\nunsafe impl Sync for Reg {}\n\npub const INIT: Reg = Reg { field: UnsafeCell::new(0) };\n\n");
    out
}

/// The accessor of the elements of a register array.
pub open spec fn spec_dim_accessor(name: Seq<char>, inc: usize) -> Seq<char> {
    "#[inline(always)]\npub fn of_"@ + name + "(&self, i: u32) -> &'static "@ + name + "::Reg {\n    unsafe { &*((&self."@ + name + " as *const "@ + name + "::Reg).offset((("@ + spec_decimal(inc as nat) + " / 4) * i) as isize)) }\n}\n"@
}

/// Writes the accessor of the elements of a register array.
pub fn dim_accessor(name: &str, inc: usize) -> (r: String)
    ensures
        r@ == spec_dim_accessor(name@, inc),
{
    let mut out = String::from_str("#[inline(always)]\npub fn of_");
    out.append(name);
    out.append("(&self, i: u32) -> &'static ");
    out.append(name);
    out.append("::Reg {\n    unsafe { &*((&self.");
    out.append(name);
    out.append(" as *const ");
    out.append(name);
    out.append("::Reg).offset(((");
    let t = decimal(inc);
    out.append(t.as_str());
    out.append(" / 4) * i) as isize)) }\n}\n");
    out
}

/// The write method of a plain field.
pub open spec fn spec_value_fn(kind: Seq<char>, fname: Seq<char>, method: Seq<char>, pos: usize) -> Seq<char> {
    "#[inline(always)]\npub fn "@ + fname + "(&mut self, value: usize) -> &mut "@ + kind + " {\n    self.apply("@ + spec_decimal(pos as nat) + ", "@ + fname + "."@ + method + "(value));\n    self\n}\n"@
}

/// Writes the write method of a plain field.
pub fn value_fn(kind: &str, fname: &str, method: &str, pos: usize) -> (r: String)
    ensures
        r@ == spec_value_fn(kind@, fname@, method@, pos),
{
    let mut out = String::from_str("#[inline(always)]\npub fn ");
    out.append(fname);
    out.append("(&mut self, value: usize) -> &mut ");
    out.append(kind);
    out.append(" {\n    self.apply(");
    let t = decimal(pos);
    out.append(t.as_str());
    out.append(", ");
    out.append(fname);
    out.append(".");
    out.append(method);
    out.append("(value));\n    self\n}\n");
    out
}

/// The read method of a plain field.
pub open spec fn spec_read_value_fn(fname: Seq<char>, pos: usize) -> Seq<char> {
    "#[inline(always)]\npub fn "@ + fname + "(&self) -> usize {\n    "@ + fname + ".read(self.value as usize >> "@ + spec_decimal(pos as nat) + ")\n}\n"@
}

/// Writes the read method of a plain field.
pub fn read_value_fn(fname: &str, pos: usize) -> (r: String)
    ensures
        r@ == spec_read_value_fn(fname@, pos),
{
    let mut out = String::from_str("#[inline(always)]\npub fn ");
    out.append(fname);
    out.append("(&self) -> usize {\n    ");
    out.append(fname);
    out.append(".read(self.value as usize >> ");
    let t = decimal(pos);
    out.append(t.as_str());
    out.append(")\n}\n");
    out
}

/// A named value of a field type.
pub open spec fn spec_enum_opt(vname: Seq<char>, value: usize) -> Seq<char> {
    vname + " = "@ + spec_decimal(value as nat) + ",\n"@
}

/// Writes a named value of a field type.
pub fn enum_opt(vname: &str, value: usize) -> (r: String)
    ensures
        r@ == spec_enum_opt(vname@, value),
{
    let mut out = String::new();
    out.append(vname);
    out.append(" = ");
    let t = decimal(value);
    out.append(t.as_str());
    out.append(",\n");
    out
}

/// The arm that maps a number back to a named value.
pub open spec fn spec_enum_arm(fname: Seq<char>, vname: Seq<char>, value: usize) -> Seq<char> {
    spec_decimal(value as nat) + " => Some("@ + fname + "::"@ + vname + "),\n"@
}

/// Writes the arm that maps a number back to a named value.
pub fn enum_arm(fname: &str, vname: &str, value: usize) -> (r: String)
    ensures
        r@ == spec_enum_arm(fname@, vname@, value),
{
    let mut out = String::new();
    let t = decimal(value);
    out.append(t.as_str());
    out.append(" => Some(");
    out.append(fname);
    out.append("::");
    out.append(vname);
    out.append("),\n");
    out
}

/// The type of the named values of a field.
pub open spec fn spec_enum_decl(fname: Seq<char>, opts: Seq<char>, arms: Seq<char>) -> Seq<char> {
    "#[derive(Clone, Copy, PartialEq)]\n#[allow(non_camel_case_types)]\npub enum "@ + fname + " {\n"@ + opts + "}\n\nimpl "@ + fname + " {\n    pub fn from_usize(v: usize) -> Option<"@ + fname + "> {\n        match v {\n"@ + arms + "            _ => None,\n        }\n    }\n}\n\n"@
}

/// Writes the type of the named values of a field.
pub fn enum_decl(fname: &str, opts: &str, arms: &str) -> (r: String)
    ensures
        r@ == spec_enum_decl(fname@, opts@, arms@),
{
    let mut out = String::from_str("#[derive(Clone, Copy, PartialEq)]\n#[allow(non_camel_case_types)]\npub enum ");
    out.append(fname);
    out.append(" {\n");
    out.append(opts);
    out.append("}\n\nimpl ");
    out.append(fname);
    out.append(" {\n    pub fn from_usize(v: usize) -> Option<");
    out.append(fname);
    out.append("> {\n        match v {\n");
    out.append(arms);
    out.append("            _ => None,\n        }\n    }\n}\n\n");
    out
}

/// The write method of a field with named values.
pub open spec fn spec_choice_fn(kind: Seq<char>, fname: Seq<char>, method: Seq<char>, pos: usize) -> Seq<char> {
    "#[inline(always)]\npub fn "@ + fname + "(&mut self, choice: "@ + fname + ") -> &mut "@ + kind + " {\n    self.apply("@ + spec_decimal(pos as nat) + ", "@ + fname + "."@ + method + "(choice as usize));\n    self\n}\n"@
}

/// Writes the write method of a field with named values.
pub fn choice_fn(kind: &str, fname: &str, method: &str, pos: usize) -> (r: String)
    ensures
        r@ == spec_choice_fn(kind@, fname@, method@, pos),
{
    let mut out = String::from_str("#[inline(always)]\npub fn ");
    out.append(fname);
    out.append("(&mut self, choice: ");
    out.append(fname);
    out.append(") -> &mut ");
    out.append(kind);
    out.append(" {\n    self.apply(");
    let t = decimal(pos);
    out.append(t.as_str());
    out.append(", ");
    out.append(fname);
    out.append(".");
    out.append(method);
    out.append("(choice as usize));\n    self\n}\n");
    out
}

/// The read method of a field with named values.
pub open spec fn spec_read_choice_fn(fname: Seq<char>, pos: usize) -> Seq<char> {
    "#[inline(always)]\npub fn "@ + fname + "(&self) -> Option<"@ + fname + "> {\n    "@ + fname + "::from_usize("@ + fname + ".read(self.value as usize >> "@ + spec_decimal(pos as nat) + "))\n}\n"@
}

/// Writes the read method of a field with named values.
pub fn read_choice_fn(fname: &str, pos: usize) -> (r: String)
    ensures
        r@ == spec_read_choice_fn(fname@, pos),
{
    let mut out = String::from_str("#[inline(always)]\npub fn ");
    out.append(fname);
    out.append("(&self) -> Option<");
    out.append(fname);
    out.append("> {\n    ");
    out.append(fname);
    out.append("::from_usize(");
    out.append(fname);
    out.append(".read(self.value as usize >> ");
    let t = decimal(pos);
    out.append(t.as_str());
    out.append("))\n}\n");
    out
}

/// The writer type that gathers field writes and applies them when dropped.
pub open spec fn spec_def_writer(kind: Seq<char>, path: Seq<char>, methods: Seq<char>) -> Seq<char> {
    "pub struct "@ + kind + " {\n    pub origin: &'static Reg,\n    pub diff: (usize, usize),\n}\n\nimpl Drop for "@ + kind + " {\n    #[inline(always)]\n    fn drop(&mut self) {\n        self.origin.modify(self.diff);\n    }\n}\n\nimpl "@ + kind + " {\n    #[inline(always)]\n    fn apply(&mut self, pos: usize, diff: (usize, usize)) -> &mut "@ + kind + " {\n        self.diff = "@ + path + "::util::or_tuples(self.diff, "@ + path + "::util::shift_tuple(pos, diff));\n        self\n    }\n\n"@ + methods + "}\n\n"@
}

/// Writes the writer type that gathers field writes and applies them when dropped.
pub fn def_writer(kind: &str, path: &str, methods: &str) -> (r: String)
    ensures
        r@ == spec_def_writer(kind@, path@, methods@),
{
    let mut out = String::from_str("pub struct ");
    out.append(kind);
    out.append(" {\n    pub origin: &'static Reg,\n    pub diff: (usize, usize),\n}\n\nimpl Drop for ");
    out.append(kind);
    out.append(" {\n    #[inline(always)]\n    fn drop(&mut self) {\n        self.origin.modify(self.diff);\n    }\n}\n\nimpl ");
    out.append(kind);
    out.append(" {\n    #[inline(always)]\n    fn apply(&mut self, pos: usize, diff: (usize, usize)) -> &mut ");
    out.append(kind);
    out.append(" {\n        self.diff = ");
    out.append(path);
    out.append("::util::or_tuples(self.diff, ");
    out.append(path);
    out.append("::util::shift_tuple(pos, diff));\n        self\n    }\n\n");
    out.append(methods);
    out.append("}\n\n");
    out
}

/// The read snapshot type of a register.
pub open spec fn spec_def_read(ty: Seq<char>, methods: Seq<char>) -> Seq<char> {
    "#[derive(Clone, Copy)]\npub struct Read {\n    pub value: "@ + ty + ",\n}\n\nimpl Read {\n"@ + methods + "}\n"@
}

/// Writes the read snapshot type of a register.
pub fn def_read(ty: &str, methods: &str) -> (r: String)
    ensures
        r@ == spec_def_read(ty@, methods@),
{
    let mut out = String::from_str("#[derive(Clone, Copy)]\npub struct Read {\n    pub value: ");
    out.append(ty);
    out.append(",\n}\n\nimpl Read {\n");
    out.append(methods);
    out.append("}\n");
    out
}

/// The methods of a register cell.
pub open spec fn spec_struct_impl(ty: Seq<char>) -> Seq<char> {
    "impl Reg {\n    #[inline(always)]\n    pub fn update(&'static self) -> Update {\n        Update { origin: self, diff: (0, 0) }\n    }\n\n    #[inline(always)]\n    pub fn write(&'static self) -> Set {\n        Set { origin: self, diff: (0, 0) }\n    }\n\n    #[inline(always)]\n    pub fn modify(&self, diff: (usize, usize)) {\n        let (c, s) = diff;\n        if c != 0 {\n            unsafe {\n                let val = read_volatile(self.field.get() as *const "@ + ty + ");\n                write_volatile(self.field.get(), val & !(c as "@ + ty + ") | (s as "@ + ty + "));\n            }\n        } else {\n            unsafe {\n                write_volatile(self.field.get(), s as "@ + ty + ");\n            }\n        }\n    }\n\n    #[inline(always)]\n    pub fn read(&self) -> Read {\n        unsafe {\n            let val = read_volatile(self.field.get() as *const "@ + ty + ");\n            Read { value: val }\n        }\n    }\n}\n\n"@
}

/// Writes the methods of a register cell.
pub fn struct_impl(ty: &str) -> (r: String)
    ensures
        r@ == spec_struct_impl(ty@),
{
    let mut out = String::from_str("impl Reg {\n    #[inline(always)]\n    pub fn update(&'static self) -> Update {\n        Update { origin: self, diff: (0, 0) }\n    }\n\n    #[inline(always)]\n    pub fn write(&'static self) -> Set {\n        Set { origin: self, diff: (0, 0) }\n    }\n\n    #[inline(always)]\n    pub fn modify(&self, diff: (usize, usize)) {\n        let (c, s) = diff;\n        if c != 0 {\n            unsafe {\n                let val = read_volatile(self.field.get() as *const ");
    out.append(ty);
    out.append(");\n                write_volatile(self.field.get(), val & !(c as ");
    out.append(ty);
    out.append(") | (s as ");
    out.append(ty);
    out.append("));\n            }\n        } else {\n            unsafe {\n                write_volatile(self.field.get(), s as ");
    out.append(ty);
    out.append(");\n            }\n        }\n    }\n\n    #[inline(always)]\n    pub fn read(&self) -> Read {\n        unsafe {\n            let val = read_volatile(self.field.get() as *const ");
    out.append(ty);
    out.append(");\n            Read { value: val }\n        }\n    }\n}\n\n");
    out
}

/// The module of a register.
pub open spec fn spec_reg_mod(name: Seq<char>, consts: Seq<char>, enums: Seq<char>, def: Seq<char>, imp: Seq<char>, upd: Seq<char>, set: Seq<char>, read: Seq<char>) -> Seq<char> {
    "#[allow(non_snake_case)]\npub mod "@ + name + " {\n    use core::cell::UnsafeCell;\n    use core::ptr::{read_volatile, write_volatile};\n\n"@ + consts + enums + def + imp + upd + set + read + "}\n\n"@
}

/// Writes the module of a register.
pub fn reg_mod(name: &str, consts: &str, enums: &str, def: &str, imp: &str, upd: &str, set: &str, read: &str) -> (r: String)
    ensures
        r@ == spec_reg_mod(name@, consts@, enums@, def@, imp@, upd@, set@, read@),
{
    let mut out = String::from_str("#[allow(non_snake_case)]\npub mod ");
    out.append(name);
    out.append(" {\n    use core::cell::UnsafeCell;\n    use core::ptr::{read_volatile, write_volatile};\n\n");
    out.append(consts);
    out.append(enums);
    out.append(def);
    out.append(imp);
    out.append(upd);
    out.append(set);
    out.append(read);
    out.append("}\n\n");
    out
}

/// The module of a peripheral with a register table.
pub open spec fn spec_peripheral_registers(pname: Seq<char>, fields: Seq<char>, imp: Seq<char>, defaults: Seq<char>, mods: Seq<char>) -> Seq<char> {
    "#[allow(non_snake_case)]\n#[allow(unused_imports)]\n#[allow(dead_code)]\npub mod "@ + pname + " {\n    #[allow(non_snake_case)]\n    #[repr(C)]\n    pub struct Peripheral {\n"@ + fields + "    }\n\n    impl Peripheral {\n"@ + imp + "    }\n\n    pub const INIT: Peripheral = Peripheral {\n"@ + defaults + "    };\n\n"@ + mods + "}\n"@
}

/// Writes the module of a peripheral with a register table.
pub fn peripheral_registers(pname: &str, fields: &str, imp: &str, defaults: &str, mods: &str) -> (r: String)
    ensures
        r@ == spec_peripheral_registers(pname@, fields@, imp@, defaults@, mods@),
{
    let mut out = String::from_str("#[allow(non_snake_case)]\n#[allow(unused_imports)]\n#[allow(dead_code)]\npub mod ");
    out.append(pname);
    out.append(" {\n    #[allow(non_snake_case)]\n    #[repr(C)]\n    pub struct Peripheral {\n");
    out.append(fields);
    out.append("    }\n\n    impl Peripheral {\n");
    out.append(imp);
    out.append("    }\n\n    pub const INIT: Peripheral = Peripheral {\n");
    out.append(defaults);
    out.append("    };\n\n");
    out.append(mods);
    out.append("}\n");
    out
}

/// The module of a cluster.
pub open spec fn spec_cluster_struct(cname: Seq<char>, fields: Seq<char>, imp: Seq<char>, defaults: Seq<char>, mods: Seq<char>) -> Seq<char> {
    "#[allow(non_snake_case)]\npub mod "@ + cname + " {\n    #[allow(non_snake_case)]\n    #[repr(C)]\n    pub struct Cluster {\n"@ + fields + "    }\n\n    impl Cluster {\n"@ + imp + "    }\n\n    pub const INIT: Cluster = Cluster {\n"@ + defaults + "    };\n\n"@ + mods + "}\n\n"@
}

/// Writes the module of a cluster.
pub fn cluster_struct(cname: &str, fields: &str, imp: &str, defaults: &str, mods: &str) -> (r: String)
    ensures
        r@ == spec_cluster_struct(cname@, fields@, imp@, defaults@, mods@),
{
    let mut out = String::from_str("#[allow(non_snake_case)]\npub mod ");
    out.append(cname);
    out.append(" {\n    #[allow(non_snake_case)]\n    #[repr(C)]\n    pub struct Cluster {\n");
    out.append(fields);
    out.append("    }\n\n    impl Cluster {\n");
    out.append(imp);
    out.append("    }\n\n    pub const INIT: Cluster = Cluster {\n");
    out.append(defaults);
    out.append("    };\n\n");
    out.append(mods);
    out.append("}\n\n");
    out
}

/// The field of a cluster in the list of clusters.
pub open spec fn spec_cluster_field(cname: Seq<char>) -> Seq<char> {
    "pub "@ + cname + ": &'static "@ + cname + "::Cluster,\n"@
}

/// Writes the field of a cluster in the list of clusters.
pub fn cluster_field(cname: &str) -> (r: String)
    ensures
        r@ == spec_cluster_field(cname@),
{
    let mut out = String::from_str("pub ");
    out.append(cname);
    out.append(": &'static ");
    out.append(cname);
    out.append("::Cluster,\n");
    out
}

/// The module of a peripheral made of clusters.
pub open spec fn spec_peripheral_cluster(pname: Seq<char>, structs: Seq<char>, fields: Seq<char>) -> Seq<char> {
    "#[allow(non_snake_case)]\n#[allow(unused_imports)]\n#[allow(dead_code)]\npub mod "@ + pname + " {\n"@ + structs + "    #[allow(non_snake_case)]\n    #[derive(Clone, Copy)]\n    pub struct Clusters {\n"@ + fields + "    }\n}\n"@
}

/// Writes the module of a peripheral made of clusters.
pub fn peripheral_cluster(pname: &str, structs: &str, fields: &str) -> (r: String)
    ensures
        r@ == spec_peripheral_cluster(pname@, structs@, fields@),
{
    let mut out = String::from_str("#[allow(non_snake_case)]\n#[allow(unused_imports)]\n#[allow(dead_code)]\npub mod ");
    out.append(pname);
    out.append(" {\n");
    out.append(structs);
    out.append("    #[allow(non_snake_case)]\n    #[derive(Clone, Copy)]\n    pub struct Clusters {\n");
    out.append(fields);
    out.append("    }\n}\n");
    out
}

/// The link-time symbol of a peripheral or cluster.
pub open spec fn spec_extern_static(sym: Seq<char>, ty: Seq<char>) -> Seq<char> {
    "static "@ + sym + ": "@ + ty + ";\n"@
}

/// Writes the link-time symbol of a peripheral or cluster.
pub fn extern_static(sym: &str, ty: &str) -> (r: String)
    ensures
        r@ == spec_extern_static(sym@, ty@),
{
    let mut out = String::from_str("static ");
    out.append(sym);
    out.append(": ");
    out.append(ty);
    out.append(";\n");
    out
}

/// A field of the system struct.
pub open spec fn spec_system_field(pname: Seq<char>, ty: Seq<char>) -> Seq<char> {
    "pub "@ + pname + ": "@ + ty + ",\n"@
}

/// Writes a field of the system struct.
pub fn system_field(pname: &str, ty: &str) -> (r: String)
    ensures
        r@ == spec_system_field(pname@, ty@),
{
    let mut out = String::from_str("pub ");
    out.append(pname);
    out.append(": ");
    out.append(ty);
    out.append(",\n");
    out
}

/// The initial value of a field of the system struct.
pub open spec fn spec_system_init(pname: Seq<char>, value: Seq<char>) -> Seq<char> {
    pname + ": "@ + value + ",\n"@
}

/// Writes the initial value of a field of the system struct.
pub fn system_init(pname: &str, value: &str) -> (r: String)
    ensures
        r@ == spec_system_init(pname@, value@),
{
    let mut out = String::new();
    out.append(pname);
    out.append(": ");
    out.append(value);
    out.append(",\n");
    out
}

/// The initial value of a cluster in a list of clusters.
pub open spec fn spec_cluster_init(cname: Seq<char>, sym: Seq<char>) -> Seq<char> {
    cname + ": &"@ + sym + ",\n"@
}

/// Writes the initial value of a cluster in a list of clusters.
pub fn cluster_init(cname: &str, sym: &str) -> (r: String)
    ensures
        r@ == spec_cluster_init(cname@, sym@),
{
    let mut out = String::new();
    out.append(cname);
    out.append(": &");
    out.append(sym);
    out.append(",\n");
    out
}

/// The items that tie the peripherals to their symbols.
pub open spec fn spec_system_items(externs: Seq<char>, fields: Seq<char>, inits: Seq<char>) -> Seq<char> {
    "#[allow(improper_ctypes)]\nextern \"C\" {\n"@ + externs + "}\n\n#[allow(non_snake_case)]\n#[derive(Clone, Copy)]\npub struct System {\n"@ + fields + "}\n\npub static SYS: System = System {\n"@ + inits + "};\n"@
}

/// Writes the items that tie the peripherals to their symbols.
pub fn system_items(externs: &str, fields: &str, inits: &str) -> (r: String)
    ensures
        r@ == spec_system_items(externs@, fields@, inits@),
{
    let mut out = String::from_str("#[allow(improper_ctypes)]\nextern \"C\" {\n");
    out.append(externs);
    out.append("}\n\n#[allow(non_snake_case)]\n#[derive(Clone, Copy)]\npub struct System {\n");
    out.append(fields);
    out.append("}\n\npub static SYS: System = System {\n");
    out.append(inits);
    out.append("};\n");
    out
}
} // verus!
