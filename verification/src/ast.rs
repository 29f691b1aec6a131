//! The peripheral description that the generator turns into code.

use vstd::prelude::*;
use crate::omap::{OffsetMap, Duplicate};

verus! {

/// The registers of a peripheral: one table, or several named clusters.
pub enum RegList {
    Registers(OffsetMap<RegisterAst>),
    Cluster(Vec<Cluster>),
}

/// A peripheral: its name, base address, registers and the peripheral it derives from.
pub struct PeripheralAst {
    pub name: String,
    pub address: u32,
    pub regs: RegList,
    pub derives: Option<String>,
}

/// A named group of registers inside a peripheral.
pub struct Cluster {
    pub name: String,
    pub registers: OffsetMap<RegisterAst>,
}

/// A register: name, fields keyed by bit offset, width in bytes, and, for an
/// array of registers, its count and the byte distance between elements.
pub struct RegisterAst {
    pub name: String,
    pub fields: OffsetMap<FieldAst>,
    pub width: usize,
    pub dim: Option<(u32, u32)>,
}

/// A field: name, width in bits and, where it has them, its named values.
pub struct FieldAst {
    pub name: String,
    pub width: usize,
    pub enumerate: Option<Vec<(String, usize)>>,
}

/// The model of a field.
pub struct FieldView {
    pub name: Seq<char>,
    pub width: usize,
    pub enumerate: Option<Seq<(Seq<char>, usize)>>,
}

/// The model of a register.
pub struct RegisterView {
    pub name: Seq<char>,
    pub fields: Seq<(usize, FieldView)>,
    pub width: usize,
    pub dim: Option<(u32, u32)>,
}

/// The model of a cluster.
pub struct ClusterView {
    pub name: Seq<char>,
    pub registers: Seq<(usize, RegisterView)>,
}

/// The model of a register list.
pub enum RegListView {
    Registers(Seq<(usize, RegisterView)>),
    Cluster(Seq<ClusterView>),
}

/// The model of a peripheral.
pub struct PeripheralView {
    pub name: Seq<char>,
    pub address: u32,
    pub regs: RegListView,
    pub derives: Option<Seq<char>>,
}

/// The models of a list of peripherals.
pub open spec fn peripherals_view(v: Seq<PeripheralAst>) -> Seq<PeripheralView> {
    v.map_values(|p: PeripheralAst| p@)
}

/// The models of a list of clusters.
pub open spec fn clusters_view(v: Seq<Cluster>) -> Seq<ClusterView> {
    v.map_values(|c: Cluster| c@)
}

/// The model of a list of named values.
pub open spec fn enum_view(e: Option<Vec<(String, usize)>>) -> Option<Seq<(Seq<char>, usize)>> {
    match e {
        None => None,
        Some(v) => Some(v@.map_values(|p: (String, usize)| (p.0@, p.1))),
    }
}

/// The model of an optional name.
pub open spec fn opt_string_view(s: Option<String>) -> Option<Seq<char>> {
    match s {
        None => None,
        Some(t) => Some(t@),
    }
}

impl View for FieldAst {
    type V = FieldView;

    open spec fn view(&self) -> FieldView {
        FieldView { name: self.name@, width: self.width, enumerate: enum_view(self.enumerate) }
    }
}

impl View for RegisterAst {
    type V = RegisterView;

    open spec fn view(&self) -> RegisterView {
        RegisterView { name: self.name@, fields: self.fields@, width: self.width, dim: self.dim }
    }
}

impl View for Cluster {
    type V = ClusterView;

    open spec fn view(&self) -> ClusterView {
        ClusterView { name: self.name@, registers: self.registers@ }
    }
}

impl View for RegList {
    type V = RegListView;

    open spec fn view(&self) -> RegListView {
        match self {
            RegList::Registers(m) => RegListView::Registers(m@),
            RegList::Cluster(v) => RegListView::Cluster(clusters_view(v@)),
        }
    }
}

impl View for PeripheralAst {
    type V = PeripheralView;

    open spec fn view(&self) -> PeripheralView {
        PeripheralView {
            name: self.name@,
            address: self.address,
            regs: self.regs@,
            derives: opt_string_view(self.derives),
        }
    }
}

/// A copy of a list of named values.
pub fn clone_enum(e: &Option<Vec<(String, usize)>>) -> (r: Option<Vec<(String, usize)>>)
    ensures
        enum_view(r) == enum_view(*e),
{
    match e {
        None => None,
        Some(v) => {
            let mut out: Vec<(String, usize)> = Vec::new();
            let mut i: usize = 0;
            while i < v.len()
                invariant
                    0 <= i <= v.len(),
                    out@.len() == i,
                    forall|j: int| 0 <= j < i ==> (#[trigger] out@[j]).0@ == v@[j].0@ && out@[j].1 == v@[j].1,
                decreases v.len() - i,
            {
                out.push((v[i].0.clone(), v[i].1));
                i = i + 1;
            }
            let r = Some(out);
            assert(enum_view(r).unwrap() =~= enum_view(*e).unwrap());
            r
        }
    }
}

/// A copy of an optional name.
pub fn clone_opt_string(s: &Option<String>) -> (r: Option<String>)
    ensures
        opt_string_view(r) == opt_string_view(*s),
{
    match s {
        None => None,
        Some(t) => Some(t.clone()),
    }
}

impl Clone for FieldAst {
    fn clone(&self) -> (r: Self)
        ensures
            r@ == self@,
    {
        FieldAst { name: self.name.clone(), width: self.width, enumerate: clone_enum(&self.enumerate) }
    }
}

impl Duplicate for FieldAst {
    fn duplicate(&self) -> (r: Self) {
        self.clone()
    }
}

impl Clone for RegisterAst {
    fn clone(&self) -> (r: Self)
        ensures
            r@ == self@,
    {
        RegisterAst {
            name: self.name.clone(),
            fields: self.fields.clone(),
            width: self.width,
            dim: self.dim,
        }
    }
}

impl Duplicate for RegisterAst {
    fn duplicate(&self) -> (r: Self) {
        self.clone()
    }
}

impl Clone for Cluster {
    fn clone(&self) -> (r: Self)
        ensures
            r@ == self@,
    {
        Cluster { name: self.name.clone(), registers: self.registers.clone() }
    }
}

impl Clone for RegList {
    fn clone(&self) -> (r: Self)
        ensures
            r@ == self@,
    {
        match self {
            RegList::Registers(m) => RegList::Registers(m.clone()),
            RegList::Cluster(v) => {
                let mut out: Vec<Cluster> = Vec::new();
                let mut i: usize = 0;
                while i < v.len()
                    invariant
                        0 <= i <= v.len(),
                        out@.len() == i,
                        forall|j: int| 0 <= j < i ==> (#[trigger] out@[j])@ == v@[j]@,
                    decreases v.len() - i,
                {
                    out.push(v[i].clone());
                    i = i + 1;
                }
                let r = RegList::Cluster(out);
                proof {
                    assert(clusters_view(out@) =~= clusters_view(v@));
                }
                r
            }
        }
    }
}

impl Clone for PeripheralAst {
    fn clone(&self) -> (r: Self)
        ensures
            r@ == self@,
    {
        PeripheralAst {
            name: self.name.clone(),
            address: self.address,
            regs: self.regs.clone(),
            derives: clone_opt_string(&self.derives),
        }
    }
}

} // verus!
