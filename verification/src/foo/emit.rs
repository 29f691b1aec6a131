//! Text templates of the register code that the first generation of the
//! generator writes, each with the spec of the text it writes.

use vstd::prelude::*;
use crate::text::{decimal, spec_decimal};

verus! {

/// The mask constant of a field.
pub open spec fn spec_foo_const_field(fname: Seq<char>, width: usize) -> Seq<char> {
    "const "@ + fname + ": ::bar::regs::RegField = ::bar::regs::RegField { width: "@ + spec_decimal(width as nat) + " };\n"@
}

/// Writes the mask constant of a field.
pub fn foo_const_field(fname: &str, width: usize) -> (r: String)
    ensures
        r@ == spec_foo_const_field(fname@, width),
{
    let mut out = String::from_str("const ");
    out.append(fname);
    out.append(": ::bar::regs::RegField = ::bar::regs::RegField { width: ");
    let t = decimal(width);
    out.append(t.as_str());
    out.append(" };\n");
    out
}

/// The cell type of a register.
pub open spec fn spec_foo_struct_def(ty: Seq<char>) -> Seq<char> {
    "#[repr(C)]\npub struct Reg {\n    pub field: UnsafeCell<"@ + ty + ">,\n}\n\npub const INIT: Reg = Reg { field: UnsafeCell::new(0) };\n\n"@
}

/// Writes the cell type of a register.
pub fn foo_struct_def(ty: &str) -> (r: String)
    ensures
        r@ == spec_foo_struct_def(ty@),
{
    let mut out = String::from_str("#[repr(C)]\npub struct Reg {\n    pub field: UnsafeCell<");
    out.append(ty);
    out.append(">,\n}\n\npub const INIT: Reg = Reg { field: UnsafeCell::new(0) };\n\n");
    out
}

/// The update method of a plain field.
pub open spec fn spec_foo_update_fn(fname: Seq<char>, pos: usize) -> Seq<char> {
    "pub fn "@ + fname + "(&mut self, value: usize) -> &mut Update {\n    self.apply("@ + spec_decimal(pos as nat) + ", "@ + fname + ".update_value(value));\n    self\n}\n"@
}

/// Writes the update method of a plain field.
pub fn foo_update_fn(fname: &str, pos: usize) -> (r: String)
    ensures
        r@ == spec_foo_update_fn(fname@, pos),
{
    let mut out = String::from_str("pub fn ");
    out.append(fname);
    out.append("(&mut self, value: usize) -> &mut Update {\n    self.apply(");
    let t = decimal(pos);
    out.append(t.as_str());
    out.append(", ");
    out.append(fname);
    out.append(".update_value(value));\n    self\n}\n");
    out
}

/// The set method of a plain field, which sets all of its bits.
pub open spec fn spec_foo_set_fn(fname: Seq<char>, pos: usize) -> Seq<char> {
    "pub fn "@ + fname + "(&mut self) -> &mut Set {\n    self.apply("@ + spec_decimal(pos as nat) + ", "@ + fname + ".set());\n    self\n}\n"@
}

/// Writes the set method of a plain field, which sets all of its bits.
pub fn foo_set_fn(fname: &str, pos: usize) -> (r: String)
    ensures
        r@ == spec_foo_set_fn(fname@, pos),
{
    let mut out = String::from_str("pub fn ");
    out.append(fname);
    out.append("(&mut self) -> &mut Set {\n    self.apply(");
    let t = decimal(pos);
    out.append(t.as_str());
    out.append(", ");
    out.append(fname);
    out.append(".set());\n    self\n}\n");
    out
}

/// The read method of a plain field.
pub open spec fn spec_foo_read_fn(fname: Seq<char>, pos: usize) -> Seq<char> {
    "pub fn "@ + fname + "(&self) -> usize {\n    "@ + fname + ".read(self.value as usize >> "@ + spec_decimal(pos as nat) + ")\n}\n"@
}

/// Writes the read method of a plain field.
pub fn foo_read_fn(fname: &str, pos: usize) -> (r: String)
    ensures
        r@ == spec_foo_read_fn(fname@, pos),
{
    let mut out = String::from_str("pub fn ");
    out.append(fname);
    out.append("(&self) -> usize {\n    ");
    out.append(fname);
    out.append(".read(self.value as usize >> ");
    let t = decimal(pos);
    out.append(t.as_str());
    out.append(")\n}\n");
    out
}

/// The write method of a field with named values.
pub open spec fn spec_foo_choice_fn(kind: Seq<char>, fname: Seq<char>, method: Seq<char>, pos: usize) -> Seq<char> {
    "pub fn "@ + fname + "(&mut self, choice: "@ + fname + ") -> &mut "@ + kind + " {\n    self.apply("@ + spec_decimal(pos as nat) + ", "@ + fname + "."@ + method + "(choice as usize));\n    self\n}\n"@
}

/// Writes the write method of a field with named values.
pub fn foo_choice_fn(kind: &str, fname: &str, method: &str, pos: usize) -> (r: String)
    ensures
        r@ == spec_foo_choice_fn(kind@, fname@, method@, pos),
{
    let mut out = String::from_str("pub fn ");
    out.append(fname);
    out.append("(&mut self, choice: ");
    out.append(fname);
    out.append(") -> &mut ");
    out.append(kind);
    out.append(" {\n    self.apply(");
    let t = decimal(pos);
    out.append(t.as_str());
    out.append(", ");
    out.append(fname);
    out.append(".");
    out.append(method);
    out.append("(choice as usize));\n    self\n}\n");
    out
}

/// The read method of a field with named values.
pub open spec fn spec_foo_read_choice_fn(fname: Seq<char>, pos: usize) -> Seq<char> {
    "pub fn "@ + fname + "(&self) -> Option<"@ + fname + "> {\n    "@ + fname + "::from_usize("@ + fname + ".read(self.value as usize >> "@ + spec_decimal(pos as nat) + "))\n}\n"@
}

/// Writes the read method of a field with named values.
pub fn foo_read_choice_fn(fname: &str, pos: usize) -> (r: String)
    ensures
        r@ == spec_foo_read_choice_fn(fname@, pos),
{
    let mut out = String::from_str("pub fn ");
    out.append(fname);
    out.append("(&self) -> Option<");
    out.append(fname);
    out.append("> {\n    ");
    out.append(fname);
    out.append("::from_usize(");
    out.append(fname);
    out.append(".read(self.value as usize >> ");
    let t = decimal(pos);
    out.append(t.as_str());
    out.append("))\n}\n");
    out
}

/// The type of the named values of a field.
pub open spec fn spec_foo_enum_decl(fname: Seq<char>, opts: Seq<char>, arms: Seq<char>) -> Seq<char> {
    "#[derive(Clone, Copy, Debug, PartialEq)]\n#[allow(non_camel_case_types)]\npub enum "@ + fname + " {\n"@ + opts + "}\n\nimpl "@ + fname + " {\n    pub fn from_usize(v: usize) -> Option<"@ + fname + "> {\n        match v {\n"@ + arms + "            _ => None,\n        }\n    }\n}\n\n"@
}

/// Writes the type of the named values of a field.
pub fn foo_enum_decl(fname: &str, opts: &str, arms: &str) -> (r: String)
    ensures
        r@ == spec_foo_enum_decl(fname@, opts@, arms@),
{
    let mut out = String::from_str("#[derive(Clone, Copy, Debug, PartialEq)]\n#[allow(non_camel_case_types)]\npub enum ");
    out.append(fname);
    out.append(" {\n");
    out.append(opts);
    out.append("}\n\nimpl ");
    out.append(fname);
    out.append(" {\n    pub fn from_usize(v: usize) -> Option<");
    out.append(fname);
    out.append("> {\n        match v {\n");
    out.append(arms);
    out.append("            _ => None,\n        }\n    }\n}\n\n");
    out
}

/// The writer type that gathers field writes and applies them when dropped.
pub open spec fn spec_foo_def_writer(kind: Seq<char>, methods: Seq<char>) -> Seq<char> {
    "pub struct "@ + kind + " {\n    pub origin: &'static Reg,\n    pub diff: (usize, usize),\n}\n\nimpl Drop for "@ + kind + " {\n    fn drop(&mut self) {\n        self.origin.modify(self.diff);\n    }\n}\n\nimpl "@ + kind + " {\n    fn apply(&mut self, pos: usize, diff: (usize, usize)) -> &mut "@ + kind + " {\n        self.diff = ::bar::util::or_tuples(self.diff, ::bar::util::shift_tuple(pos, diff));\n        self\n    }\n\n"@ + methods + "}\n\n"@
}

/// Writes the writer type that gathers field writes and applies them when dropped.
pub fn foo_def_writer(kind: &str, methods: &str) -> (r: String)
    ensures
        r@ == spec_foo_def_writer(kind@, methods@),
{
    let mut out = String::from_str("pub struct ");
    out.append(kind);
    out.append(" {\n    pub origin: &'static Reg,\n    pub diff: (usize, usize),\n}\n\nimpl Drop for ");
    out.append(kind);
    out.append(" {\n    fn drop(&mut self) {\n        self.origin.modify(self.diff);\n    }\n}\n\nimpl ");
    out.append(kind);
    out.append(" {\n    fn apply(&mut self, pos: usize, diff: (usize, usize)) -> &mut ");
    out.append(kind);
    out.append(" {\n        self.diff = ::bar::util::or_tuples(self.diff, ::bar::util::shift_tuple(pos, diff));\n        self\n    }\n\n");
    out.append(methods);
    out.append("}\n\n");
    out
}

/// The read snapshot type of a register.
pub open spec fn spec_foo_def_read(ty: Seq<char>, methods: Seq<char>) -> Seq<char> {
    "#[derive(Clone, Copy)]\npub struct Read {\n    pub value: "@ + ty + ",\n}\n\nimpl Read {\n"@ + methods + "}\n"@
}

/// Writes the read snapshot type of a register.
pub fn foo_def_read(ty: &str, methods: &str) -> (r: String)
    ensures
        r@ == spec_foo_def_read(ty@, methods@),
{
    let mut out = String::from_str("#[derive(Clone, Copy)]\npub struct Read {\n    pub value: ");
    out.append(ty);
    out.append(",\n}\n\nimpl Read {\n");
    out.append(methods);
    out.append("}\n");
    out
}

/// The methods of a register cell.
pub open spec fn spec_foo_struct_impl(ty: Seq<char>) -> Seq<char> {
    "impl Reg {\n    pub fn update(&'static self) -> Update {\n        Update { origin: self, diff: (0, 0) }\n    }\n\n    pub fn write(&'static self) -> Set {\n        Set { origin: self, diff: (0, 0) }\n    }\n\n    pub fn modify(&self, diff: (usize, usize)) {\n        let (c, s) = diff;\n        if c != 0 {\n            unsafe {\n                let val = read_volatile(self.field.get() as *const "@ + ty + ");\n                write_volatile(self.field.get(), val & !(c as "@ + ty + ") | (s as "@ + ty + "));\n            }\n        } else {\n            unsafe {\n                write_volatile(self.field.get(), s as "@ + ty + ");\n            }\n        }\n    }\n\n    pub fn read(&self) -> Read {\n        unsafe {\n            let val = read_volatile(self.field.get() as *const "@ + ty + ");\n            Read { value: val }\n        }\n    }\n}\n\n"@
}

/// Writes the methods of a register cell.
pub fn foo_struct_impl(ty: &str) -> (r: String)
    ensures
        r@ == spec_foo_struct_impl(ty@),
{
    let mut out = String::from_str("impl Reg {\n    pub fn update(&'static self) -> Update {\n        Update { origin: self, diff: (0, 0) }\n    }\n\n    pub fn write(&'static self) -> Set {\n        Set { origin: self, diff: (0, 0) }\n    }\n\n    pub fn modify(&self, diff: (usize, usize)) {\n        let (c, s) = diff;\n        if c != 0 {\n            unsafe {\n                let val = read_volatile(self.field.get() as *const ");
    out.append(ty);
    out.append(");\n                write_volatile(self.field.get(), val & !(c as ");
    out.append(ty);
    out.append(") | (s as ");
    out.append(ty);
    out.append("));\n            }\n        } else {\n            unsafe {\n                write_volatile(self.field.get(), s as ");
    out.append(ty);
    out.append(");\n            }\n        }\n    }\n\n    pub fn read(&self) -> Read {\n        unsafe {\n            let val = read_volatile(self.field.get() as *const ");
    out.append(ty);
    out.append(");\n            Read { value: val }\n        }\n    }\n}\n\n");
    out
}

/// The module of a peripheral.
pub open spec fn spec_foo_peripheral(pname: Seq<char>, fields: Seq<char>, defaults: Seq<char>, mods: Seq<char>) -> Seq<char> {
    "#[allow(non_snake_case)]\npub mod "@ + pname + " {\n    #[allow(non_snake_case)]\n    #[repr(C)]\n    pub struct Peripheral {\n"@ + fields + "    }\n\n    pub const INIT: Peripheral = Peripheral {\n"@ + defaults + "    };\n\n"@ + mods + "}\n"@
}

/// Writes the module of a peripheral.
pub fn foo_peripheral(pname: &str, fields: &str, defaults: &str, mods: &str) -> (r: String)
    ensures
        r@ == spec_foo_peripheral(pname@, fields@, defaults@, mods@),
{
    let mut out = String::from_str("#[allow(non_snake_case)]\npub mod ");
    out.append(pname);
    out.append(" {\n    #[allow(non_snake_case)]\n    #[repr(C)]\n    pub struct Peripheral {\n");
    out.append(fields);
    out.append("    }\n\n    pub const INIT: Peripheral = Peripheral {\n");
    out.append(defaults);
    out.append("    };\n\n");
    out.append(mods);
    out.append("}\n");
    out
}
} // verus!
