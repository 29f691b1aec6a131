//! The device description that the register listing is made from, as the
//! SVD file writes it, with the model of each part.

#![allow(non_snake_case)]
#![allow(non_camel_case_types)]

use vstd::prelude::*;

verus! {

/// The model of an optional text.
pub open spec fn opt_text(o: Option<String>) -> Option<Seq<char>> {
    match o {
        Some(s) => Some(s@),
        None => None,
    }
}

/// A device: its header information and its peripherals.
pub struct Device {
    pub vendor: Option<String>,
    pub vendorID: Option<String>,
    pub licenseText: Option<String>,
    pub series: Option<String>,
    pub version: Option<String>,
    pub description: Option<String>,
    pub cpu: Option<CPU>,
    pub peripherals: Vec<Peripheral>,
}

/// The model of a `Device`.
pub struct DeviceV {
    pub vendor: Option<Seq<char>>,
    pub vendorID: Option<Seq<char>>,
    pub licenseText: Option<Seq<char>>,
    pub series: Option<Seq<char>>,
    pub version: Option<Seq<char>>,
    pub description: Option<Seq<char>>,
    pub cpu: Option<CPUV>,
    pub peripherals: Seq<PeripheralV>,
}

impl View for Device {
    type V = DeviceV;

    open spec fn view(&self) -> DeviceV {
        DeviceV {
            vendor: opt_text(self.vendor),
            vendorID: opt_text(self.vendorID),
            licenseText: opt_text(self.licenseText),
            series: opt_text(self.series),
            version: opt_text(self.version),
            description: opt_text(self.description),
            cpu: match self.cpu { Some(x) => Some(x@), None => None },
            peripherals: peripheral_list_view(self.peripherals@),
        }
    }
}

/// The model of a `Device` with no element read yet.
pub open spec fn empty_device() -> DeviceV {
    DeviceV {
        vendor: None,
        vendorID: None,
        licenseText: None,
        series: None,
        version: None,
        description: None,
        cpu: None,
        peripherals: Seq::empty(),
    }
}

impl Device {
    /// A `Device` with no element read yet.
    pub fn empty() -> (r: Device)
        ensures
            r@ == empty_device(),
    {
        let r = Device {
            vendor: None,
            vendorID: None,
            licenseText: None,
            series: None,
            version: None,
            description: None,
            cpu: None,
            peripherals: Vec::new(),
        };
        assert(r@.peripherals =~= empty_device().peripherals);
        r
    }
}

/// A peripheral: its name, header information, interrupt and registers.
pub struct Peripheral {
    pub name: String,
    pub version: Option<String>,
    pub description: Option<String>,
    pub groupName: Option<String>,
    pub prependToName: Option<String>,
    pub baseAddress: Option<String>,
    pub access: Option<String>,
    pub interrupt: Option<Interrupt>,
    pub registers: Vec<Regs>,
}

/// The model of a `Peripheral`.
pub struct PeripheralV {
    pub name: Seq<char>,
    pub version: Option<Seq<char>>,
    pub description: Option<Seq<char>>,
    pub groupName: Option<Seq<char>>,
    pub prependToName: Option<Seq<char>>,
    pub baseAddress: Option<Seq<char>>,
    pub access: Option<Seq<char>>,
    pub interrupt: Option<InterruptV>,
    pub registers: Seq<RegsV>,
}

impl View for Peripheral {
    type V = PeripheralV;

    open spec fn view(&self) -> PeripheralV {
        PeripheralV {
            name: self.name@,
            version: opt_text(self.version),
            description: opt_text(self.description),
            groupName: opt_text(self.groupName),
            prependToName: opt_text(self.prependToName),
            baseAddress: opt_text(self.baseAddress),
            access: opt_text(self.access),
            interrupt: match self.interrupt { Some(x) => Some(x@), None => None },
            registers: regs_list_view(self.registers@),
        }
    }
}

/// The model of a `Peripheral` with no element read yet.
pub open spec fn empty_peripheral() -> PeripheralV {
    PeripheralV {
        name: Seq::empty(),
        version: None,
        description: None,
        groupName: None,
        prependToName: None,
        baseAddress: None,
        access: None,
        interrupt: None,
        registers: Seq::empty(),
    }
}

impl Peripheral {
    /// A `Peripheral` with no element read yet.
    pub fn empty() -> (r: Peripheral)
        ensures
            r@ == empty_peripheral(),
    {
        let r = Peripheral {
            name: String::new(),
            version: None,
            description: None,
            groupName: None,
            prependToName: None,
            baseAddress: None,
            access: None,
            interrupt: None,
            registers: Vec::new(),
        };
        assert(r@.registers =~= empty_peripheral().registers);
        r
    }
}

/// An interrupt of a peripheral.
pub struct Interrupt {
    pub name: String,
    pub value: Option<usize>,
}

/// The model of a `Interrupt`.
pub struct InterruptV {
    pub name: Seq<char>,
    pub value: Option<usize>,
}

impl View for Interrupt {
    type V = InterruptV;

    open spec fn view(&self) -> InterruptV {
        InterruptV {
            name: self.name@,
            value: self.value,
        }
    }
}

/// The model of a `Interrupt` with no element read yet.
pub open spec fn empty_interrupt() -> InterruptV {
    InterruptV {
        name: Seq::empty(),
        value: None,
    }
}

impl Interrupt {
    /// A `Interrupt` with no element read yet.
    pub fn empty() -> (r: Interrupt)
        ensures
            r@ == empty_interrupt(),
    {
        let r = Interrupt {
            name: String::new(),
            value: None,
        };
        r
    }
}

/// A register: name, array size and step, offset, width in bits, access and fields.
pub struct Register {
    pub name: String,
    pub dim: Option<usize>,
    pub dimIncrement: Option<String>,
    pub description: Option<String>,
    pub addressOffset: Option<String>,
    pub size: Option<usize>,
    pub access: Option<String>,
    pub fields: Vec<Field>,
}

/// The model of a `Register`.
pub struct RegisterV {
    pub name: Seq<char>,
    pub dim: Option<usize>,
    pub dimIncrement: Option<Seq<char>>,
    pub description: Option<Seq<char>>,
    pub addressOffset: Option<Seq<char>>,
    pub size: Option<usize>,
    pub access: Option<Seq<char>>,
    pub fields: Seq<FieldV>,
}

impl View for Register {
    type V = RegisterV;

    open spec fn view(&self) -> RegisterV {
        RegisterV {
            name: self.name@,
            dim: self.dim,
            dimIncrement: opt_text(self.dimIncrement),
            description: opt_text(self.description),
            addressOffset: opt_text(self.addressOffset),
            size: self.size,
            access: opt_text(self.access),
            fields: field_list_view(self.fields@),
        }
    }
}

/// The model of a `Register` with no element read yet.
pub open spec fn empty_register() -> RegisterV {
    RegisterV {
        name: Seq::empty(),
        dim: None,
        dimIncrement: None,
        description: None,
        addressOffset: None,
        size: None,
        access: None,
        fields: Seq::empty(),
    }
}

impl Register {
    /// A `Register` with no element read yet.
    pub fn empty() -> (r: Register)
        ensures
            r@ == empty_register(),
    {
        let r = Register {
            name: String::new(),
            dim: None,
            dimIncrement: None,
            description: None,
            addressOffset: None,
            size: None,
            access: None,
            fields: Vec::new(),
        };
        assert(r@.fields =~= empty_register().fields);
        r
    }
}

/// A named group of registers.
pub struct Cluster {
    pub name: String,
    pub registers: Vec<Register>,
}

/// The model of a `Cluster`.
pub struct ClusterV {
    pub name: Seq<char>,
    pub registers: Seq<RegisterV>,
}

impl View for Cluster {
    type V = ClusterV;

    open spec fn view(&self) -> ClusterV {
        ClusterV {
            name: self.name@,
            registers: register_list_view(self.registers@),
        }
    }
}

/// The model of a `Cluster` with no element read yet.
pub open spec fn empty_cluster() -> ClusterV {
    ClusterV {
        name: Seq::empty(),
        registers: Seq::empty(),
    }
}

impl Cluster {
    /// A `Cluster` with no element read yet.
    pub fn empty() -> (r: Cluster)
        ensures
            r@ == empty_cluster(),
    {
        let r = Cluster {
            name: String::new(),
            registers: Vec::new(),
        };
        assert(r@.registers =~= empty_cluster().registers);
        r
    }
}

/// A field of a register: its bit position, given by offset and width or by a range.
pub struct Field {
    pub name: String,
    pub description: Option<String>,
    pub bitOffset: Option<usize>,
    pub bitWidth: Option<usize>,
    pub bitRange: Option<String>,
    pub access: Option<String>,
    pub enumeratedValues: Vec<EnumeratedValue>,
}

/// The model of a `Field`.
pub struct FieldV {
    pub name: Seq<char>,
    pub description: Option<Seq<char>>,
    pub bitOffset: Option<usize>,
    pub bitWidth: Option<usize>,
    pub bitRange: Option<Seq<char>>,
    pub access: Option<Seq<char>>,
    pub enumeratedValues: Seq<EnumeratedValueV>,
}

impl View for Field {
    type V = FieldV;

    open spec fn view(&self) -> FieldV {
        FieldV {
            name: self.name@,
            description: opt_text(self.description),
            bitOffset: self.bitOffset,
            bitWidth: self.bitWidth,
            bitRange: opt_text(self.bitRange),
            access: opt_text(self.access),
            enumeratedValues: enumerated_value_list_view(self.enumeratedValues@),
        }
    }
}

/// The model of a `Field` with no element read yet.
pub open spec fn empty_field() -> FieldV {
    FieldV {
        name: Seq::empty(),
        description: None,
        bitOffset: None,
        bitWidth: None,
        bitRange: None,
        access: None,
        enumeratedValues: Seq::empty(),
    }
}

impl Field {
    /// A `Field` with no element read yet.
    pub fn empty() -> (r: Field)
        ensures
            r@ == empty_field(),
    {
        let r = Field {
            name: String::new(),
            description: None,
            bitOffset: None,
            bitWidth: None,
            bitRange: None,
            access: None,
            enumeratedValues: Vec::new(),
        };
        assert(r@.enumeratedValues =~= empty_field().enumeratedValues);
        r
    }
}

/// A named value of a field.
pub struct EnumeratedValue {
    pub name: String,
    pub value: String,
    pub description: Option<String>,
}

/// The model of a `EnumeratedValue`.
pub struct EnumeratedValueV {
    pub name: Seq<char>,
    pub value: Seq<char>,
    pub description: Option<Seq<char>>,
}

impl View for EnumeratedValue {
    type V = EnumeratedValueV;

    open spec fn view(&self) -> EnumeratedValueV {
        EnumeratedValueV {
            name: self.name@,
            value: self.value@,
            description: opt_text(self.description),
        }
    }
}

/// The model of a `EnumeratedValue` with no element read yet.
pub open spec fn empty_enumerated_value() -> EnumeratedValueV {
    EnumeratedValueV {
        name: Seq::empty(),
        value: Seq::empty(),
        description: None,
    }
}

impl EnumeratedValue {
    /// A `EnumeratedValue` with no element read yet.
    pub fn empty() -> (r: EnumeratedValue)
        ensures
            r@ == empty_enumerated_value(),
    {
        let r = EnumeratedValue {
            name: String::new(),
            value: String::new(),
            description: None,
        };
        r
    }
}

/// The processor of a device.
pub struct CPU {
    pub name: Option<String>,
    pub revision: Option<String>,
}

/// The model of a `CPU`.
pub struct CPUV {
    pub name: Option<Seq<char>>,
    pub revision: Option<Seq<char>>,
}

impl View for CPU {
    type V = CPUV;

    open spec fn view(&self) -> CPUV {
        CPUV {
            name: opt_text(self.name),
            revision: opt_text(self.revision),
        }
    }
}

/// The model of a `CPU` with no element read yet.
pub open spec fn empty_cpu() -> CPUV {
    CPUV {
        name: None,
        revision: None,
    }
}

impl CPU {
    /// A `CPU` with no element read yet.
    pub fn empty() -> (r: CPU)
        ensures
            r@ == empty_cpu(),
    {
        let r = CPU {
            name: None,
            revision: None,
        };
        r
    }
}

/// A register entry of a peripheral: a register or a cluster of registers.
pub enum Regs {
    register(Register),
    cluster(Cluster),
}

/// The model of a `Regs`.
pub enum RegsV {
    register(RegisterV),
    cluster(ClusterV),
}

impl View for Regs {
    type V = RegsV;

    open spec fn view(&self) -> RegsV {
        match self {
            Regs::register(r) => RegsV::register(r@),
            Regs::cluster(c) => RegsV::cluster(c@),
        }
    }
}

/// The models of a list of `Peripheral`.
pub open spec fn peripheral_list_view(s: Seq<Peripheral>) -> Seq<PeripheralV> {
    s.map_values(|x: Peripheral| x@)
}

/// The models of a list of `Regs`.
pub open spec fn regs_list_view(s: Seq<Regs>) -> Seq<RegsV> {
    s.map_values(|x: Regs| x@)
}

/// The models of a list of `Field`.
pub open spec fn field_list_view(s: Seq<Field>) -> Seq<FieldV> {
    s.map_values(|x: Field| x@)
}

/// The models of a list of `EnumeratedValue`.
pub open spec fn enumerated_value_list_view(s: Seq<EnumeratedValue>) -> Seq<EnumeratedValueV> {
    s.map_values(|x: EnumeratedValue| x@)
}

/// The models of a list of `Register`.
pub open spec fn register_list_view(s: Seq<Register>) -> Seq<RegisterV> {
    s.map_values(|x: Register| x@)
}

} // verus!
