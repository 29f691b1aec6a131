//! The peripheral description read by the first generation of the generator.

use vstd::prelude::*;
use crate::omap::{OffsetMap, Duplicate};
use crate::ast::{FieldView, enum_view, clone_enum};

verus! {

/// A peripheral: its name and its registers, keyed by byte offset.
pub struct PeripheralAst {
    pub name: String,
    pub regs: OffsetMap<RegisterAst>,
}

/// A register: its name, its fields keyed by bit offset, and its width in bytes.
pub struct RegisterAst {
    pub name: String,
    pub fields: OffsetMap<FieldAst>,
    pub width: usize,
}

/// A field: its name, its width in bits and, where it has them, its named values.
pub struct FieldAst {
    pub name: String,
    pub width: usize,
    pub enumerate: Option<Vec<(String, usize)>>,
}

/// The model of a register.
pub struct RegisterView {
    pub name: Seq<char>,
    pub fields: Seq<(usize, FieldView)>,
    pub width: usize,
}

/// The model of a peripheral.
pub struct PeripheralView {
    pub name: Seq<char>,
    pub regs: Seq<(usize, RegisterView)>,
}

impl View for FieldAst {
    type V = FieldView;

    open spec fn view(&self) -> FieldView {
        FieldView { name: self.name@, width: self.width, enumerate: enum_view(self.enumerate) }
    }
}

impl View for RegisterAst {
    type V = RegisterView;

    open spec fn view(&self) -> RegisterView {
        RegisterView { name: self.name@, fields: self.fields@, width: self.width }
    }
}

impl View for PeripheralAst {
    type V = PeripheralView;

    open spec fn view(&self) -> PeripheralView {
        PeripheralView { name: self.name@, regs: self.regs@ }
    }
}

impl Clone for FieldAst {
    fn clone(&self) -> (r: Self)
        ensures
            r@ == self@,
    {
        FieldAst { name: self.name.clone(), width: self.width, enumerate: clone_enum(&self.enumerate) }
    }
}

impl Duplicate for FieldAst {
    fn duplicate(&self) -> (r: Self) {
        self.clone()
    }
}

impl Clone for RegisterAst {
    fn clone(&self) -> (r: Self)
        ensures
            r@ == self@,
    {
        RegisterAst { name: self.name.clone(), fields: self.fields.clone(), width: self.width }
    }
}

impl Duplicate for RegisterAst {
    fn duplicate(&self) -> (r: Self) {
        self.clone()
    }
}

impl Clone for PeripheralAst {
    fn clone(&self) -> (r: Self)
        ensures
            r@ == self@,
    {
        PeripheralAst { name: self.name.clone(), regs: self.regs.clone() }
    }
}

} // verus!
