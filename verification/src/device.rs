//! The SVD device description, field for field as the XML file writes it,
//! with the model of each part.

#![allow(non_snake_case)]

use vstd::prelude::*;

verus! {

/// The model of an optional text.
pub open spec fn opt_text(o: Option<String>) -> Option<Seq<char>> {
    match o {
        Some(s) => Some(s@),
        None => None,
    }
}

/// A device: its header information and its peripherals.
pub struct Device {
    pub vendor: Option<String>,
    pub vendorID: Option<String>,
    pub licenseText: Option<String>,
    pub series: Option<String>,
    pub version: Option<String>,
    pub description: Option<String>,
    pub access: Option<String>,
    pub cpu: Option<CPU>,
    pub peripherals: Option<Peripherals>,
}

/// The model of a `Device`.
pub struct DeviceV {
    pub vendor: Option<Seq<char>>,
    pub vendorID: Option<Seq<char>>,
    pub licenseText: Option<Seq<char>>,
    pub series: Option<Seq<char>>,
    pub version: Option<Seq<char>>,
    pub description: Option<Seq<char>>,
    pub access: Option<Seq<char>>,
    pub cpu: Option<CPUV>,
    pub peripherals: Option<PeripheralsV>,
}

impl View for Device {
    type V = DeviceV;

    open spec fn view(&self) -> DeviceV {
        DeviceV {
            vendor: opt_text(self.vendor),
            vendorID: opt_text(self.vendorID),
            licenseText: opt_text(self.licenseText),
            series: opt_text(self.series),
            version: opt_text(self.version),
            description: opt_text(self.description),
            access: opt_text(self.access),
            cpu: match self.cpu { Some(x) => Some(x@), None => None },
            peripherals: match self.peripherals { Some(x) => Some(x@), None => None },
        }
    }
}

/// The model of a `Device` with no element read yet.
pub open spec fn empty_device() -> DeviceV {
    DeviceV {
        vendor: None,
        vendorID: None,
        licenseText: None,
        series: None,
        version: None,
        description: None,
        access: None,
        cpu: None,
        peripherals: None,
    }
}

impl Device {
    /// A `Device` with no element read yet.
    pub fn empty() -> (r: Device)
        ensures
            r@ == empty_device(),
    {
        let r = Device {
            vendor: None,
            vendorID: None,
            licenseText: None,
            series: None,
            version: None,
            description: None,
            access: None,
            cpu: None,
            peripherals: None,
        };
        r
    }
}

/// The list of peripherals of a device.
pub struct Peripherals {
    pub peripheral: Vec<Peripheral>,
}

/// The model of a `Peripherals`.
pub struct PeripheralsV {
    pub peripheral: Seq<PeripheralV>,
}

impl View for Peripherals {
    type V = PeripheralsV;

    open spec fn view(&self) -> PeripheralsV {
        PeripheralsV {
            peripheral: peripheral_list_view(self.peripheral@),
        }
    }
}

/// The model of a `Peripherals` with no element read yet.
pub open spec fn empty_peripherals() -> PeripheralsV {
    PeripheralsV {
        peripheral: Seq::empty(),
    }
}

impl Peripherals {
    /// A `Peripherals` with no element read yet.
    pub fn empty() -> (r: Peripherals)
        ensures
            r@ == empty_peripherals(),
    {
        let r = Peripherals {
            peripheral: Vec::new(),
        };
        assert(r@.peripheral =~= empty_peripherals().peripheral);
        r
    }
}

/// A peripheral as the SVD file describes it; `derivedFrom` is an attribute of its element.
pub struct Peripheral {
    pub name: String,
    pub baseAddress: u32,
    pub derivedFrom: Option<String>,
    pub description: Option<String>,
    pub version: Option<String>,
    pub groupName: Option<String>,
    pub prependToName: Option<String>,
    pub access: Option<String>,
    pub interrupt: Option<Interrupt>,
    pub registers: Option<Registers>,
}

/// The model of a `Peripheral`.
pub struct PeripheralV {
    pub name: Seq<char>,
    pub baseAddress: u32,
    pub derivedFrom: Option<Seq<char>>,
    pub description: Option<Seq<char>>,
    pub version: Option<Seq<char>>,
    pub groupName: Option<Seq<char>>,
    pub prependToName: Option<Seq<char>>,
    pub access: Option<Seq<char>>,
    pub interrupt: Option<InterruptV>,
    pub registers: Option<RegistersV>,
}

impl View for Peripheral {
    type V = PeripheralV;

    open spec fn view(&self) -> PeripheralV {
        PeripheralV {
            name: self.name@,
            baseAddress: self.baseAddress,
            derivedFrom: opt_text(self.derivedFrom),
            description: opt_text(self.description),
            version: opt_text(self.version),
            groupName: opt_text(self.groupName),
            prependToName: opt_text(self.prependToName),
            access: opt_text(self.access),
            interrupt: match self.interrupt { Some(x) => Some(x@), None => None },
            registers: match self.registers { Some(x) => Some(x@), None => None },
        }
    }
}

/// The model of a `Peripheral` with no element read yet.
pub open spec fn empty_peripheral() -> PeripheralV {
    PeripheralV {
        name: Seq::empty(),
        baseAddress: 0,
        derivedFrom: None,
        description: None,
        version: None,
        groupName: None,
        prependToName: None,
        access: None,
        interrupt: None,
        registers: None,
    }
}

impl Peripheral {
    /// A `Peripheral` with no element read yet.
    pub fn empty() -> (r: Peripheral)
        ensures
            r@ == empty_peripheral(),
    {
        let r = Peripheral {
            name: String::new(),
            baseAddress: 0,
            derivedFrom: None,
            description: None,
            version: None,
            groupName: None,
            prependToName: None,
            access: None,
            interrupt: None,
            registers: None,
        };
        r
    }
}

/// The registers and register clusters of a peripheral.
pub struct Registers {
    pub register: Vec<Register>,
    pub cluster: Vec<Cluster>,
}

/// The model of a `Registers`.
pub struct RegistersV {
    pub register: Seq<RegisterV>,
    pub cluster: Seq<ClusterV>,
}

impl View for Registers {
    type V = RegistersV;

    open spec fn view(&self) -> RegistersV {
        RegistersV {
            register: register_list_view(self.register@),
            cluster: cluster_list_view(self.cluster@),
        }
    }
}

/// The model of a `Registers` with no element read yet.
pub open spec fn empty_registers() -> RegistersV {
    RegistersV {
        register: Seq::empty(),
        cluster: Seq::empty(),
    }
}

impl Registers {
    /// A `Registers` with no element read yet.
    pub fn empty() -> (r: Registers)
        ensures
            r@ == empty_registers(),
    {
        let r = Registers {
            register: Vec::new(),
            cluster: Vec::new(),
        };
        assert(r@.register =~= empty_registers().register);
        assert(r@.cluster =~= empty_registers().cluster);
        r
    }
}

/// A named group of registers.
pub struct Cluster {
    pub name: String,
    pub register: Vec<Register>,
}

/// The model of a `Cluster`.
pub struct ClusterV {
    pub name: Seq<char>,
    pub register: Seq<RegisterV>,
}

impl View for Cluster {
    type V = ClusterV;

    open spec fn view(&self) -> ClusterV {
        ClusterV {
            name: self.name@,
            register: register_list_view(self.register@),
        }
    }
}

/// The model of a `Cluster` with no element read yet.
pub open spec fn empty_cluster() -> ClusterV {
    ClusterV {
        name: Seq::empty(),
        register: Seq::empty(),
    }
}

impl Cluster {
    /// A `Cluster` with no element read yet.
    pub fn empty() -> (r: Cluster)
        ensures
            r@ == empty_cluster(),
    {
        let r = Cluster {
            name: String::new(),
            register: Vec::new(),
        };
        assert(r@.register =~= empty_cluster().register);
        r
    }
}

/// An interrupt line of a peripheral.
pub struct Interrupt {
    pub name: String,
    pub value: usize,
}

/// The model of a `Interrupt`.
pub struct InterruptV {
    pub name: Seq<char>,
    pub value: usize,
}

impl View for Interrupt {
    type V = InterruptV;

    open spec fn view(&self) -> InterruptV {
        InterruptV {
            name: self.name@,
            value: self.value,
        }
    }
}

/// The model of a `Interrupt` with no element read yet.
pub open spec fn empty_interrupt() -> InterruptV {
    InterruptV {
        name: Seq::empty(),
        value: 0,
    }
}

impl Interrupt {
    /// A `Interrupt` with no element read yet.
    pub fn empty() -> (r: Interrupt)
        ensures
            r@ == empty_interrupt(),
    {
        let r = Interrupt {
            name: String::new(),
            value: 0,
        };
        r
    }
}

/// A register, or an array of `dim` registers `dimIncrement` bytes apart.
pub struct Register {
    pub name: String,
    pub addressOffset: u32,
    pub dim: Option<u32>,
    pub dimIncrement: Option<u32>,
    pub description: Option<String>,
    pub size: Option<usize>,
    pub access: Option<String>,
    pub fields: Option<Fields>,
}

/// The model of a `Register`.
pub struct RegisterV {
    pub name: Seq<char>,
    pub addressOffset: u32,
    pub dim: Option<u32>,
    pub dimIncrement: Option<u32>,
    pub description: Option<Seq<char>>,
    pub size: Option<usize>,
    pub access: Option<Seq<char>>,
    pub fields: Option<FieldsV>,
}

impl View for Register {
    type V = RegisterV;

    open spec fn view(&self) -> RegisterV {
        RegisterV {
            name: self.name@,
            addressOffset: self.addressOffset,
            dim: self.dim,
            dimIncrement: self.dimIncrement,
            description: opt_text(self.description),
            size: self.size,
            access: opt_text(self.access),
            fields: match self.fields { Some(x) => Some(x@), None => None },
        }
    }
}

/// The model of a `Register` with no element read yet.
pub open spec fn empty_register() -> RegisterV {
    RegisterV {
        name: Seq::empty(),
        addressOffset: 0,
        dim: None,
        dimIncrement: None,
        description: None,
        size: None,
        access: None,
        fields: None,
    }
}

impl Register {
    /// A `Register` with no element read yet.
    pub fn empty() -> (r: Register)
        ensures
            r@ == empty_register(),
    {
        let r = Register {
            name: String::new(),
            addressOffset: 0,
            dim: None,
            dimIncrement: None,
            description: None,
            size: None,
            access: None,
            fields: None,
        };
        r
    }
}

/// The fields of a register.
pub struct Fields {
    pub field: Vec<Field>,
}

/// The model of a `Fields`.
pub struct FieldsV {
    pub field: Seq<FieldV>,
}

impl View for Fields {
    type V = FieldsV;

    open spec fn view(&self) -> FieldsV {
        FieldsV {
            field: field_list_view(self.field@),
        }
    }
}

/// The model of a `Fields` with no element read yet.
pub open spec fn empty_fields() -> FieldsV {
    FieldsV {
        field: Seq::empty(),
    }
}

impl Fields {
    /// A `Fields` with no element read yet.
    pub fn empty() -> (r: Fields)
        ensures
            r@ == empty_fields(),
    {
        let r = Fields {
            field: Vec::new(),
        };
        assert(r@.field =~= empty_fields().field);
        r
    }
}

/// A field of a register.
pub struct Field {
    pub name: String,
    pub bitOffset: usize,
    pub bitWidth: usize,
    pub description: Option<String>,
    pub access: Option<String>,
    pub enumeratedValues: Option<EnumeratedValues>,
}

/// The model of a `Field`.
pub struct FieldV {
    pub name: Seq<char>,
    pub bitOffset: usize,
    pub bitWidth: usize,
    pub description: Option<Seq<char>>,
    pub access: Option<Seq<char>>,
    pub enumeratedValues: Option<EnumeratedValuesV>,
}

impl View for Field {
    type V = FieldV;

    open spec fn view(&self) -> FieldV {
        FieldV {
            name: self.name@,
            bitOffset: self.bitOffset,
            bitWidth: self.bitWidth,
            description: opt_text(self.description),
            access: opt_text(self.access),
            enumeratedValues: match self.enumeratedValues { Some(x) => Some(x@), None => None },
        }
    }
}

/// The model of a `Field` with no element read yet.
pub open spec fn empty_field() -> FieldV {
    FieldV {
        name: Seq::empty(),
        bitOffset: 0,
        bitWidth: 0,
        description: None,
        access: None,
        enumeratedValues: None,
    }
}

impl Field {
    /// A `Field` with no element read yet.
    pub fn empty() -> (r: Field)
        ensures
            r@ == empty_field(),
    {
        let r = Field {
            name: String::new(),
            bitOffset: 0,
            bitWidth: 0,
            description: None,
            access: None,
            enumeratedValues: None,
        };
        r
    }
}

/// The named values of a field.
pub struct EnumeratedValues {
    pub enumeratedValue: Vec<EnumeratedValue>,
}

/// The model of a `EnumeratedValues`.
pub struct EnumeratedValuesV {
    pub enumeratedValue: Seq<EnumeratedValueV>,
}

impl View for EnumeratedValues {
    type V = EnumeratedValuesV;

    open spec fn view(&self) -> EnumeratedValuesV {
        EnumeratedValuesV {
            enumeratedValue: enumerated_value_list_view(self.enumeratedValue@),
        }
    }
}

/// The model of a `EnumeratedValues` with no element read yet.
pub open spec fn empty_enumerated_values() -> EnumeratedValuesV {
    EnumeratedValuesV {
        enumeratedValue: Seq::empty(),
    }
}

impl EnumeratedValues {
    /// A `EnumeratedValues` with no element read yet.
    pub fn empty() -> (r: EnumeratedValues)
        ensures
            r@ == empty_enumerated_values(),
    {
        let r = EnumeratedValues {
            enumeratedValue: Vec::new(),
        };
        assert(r@.enumeratedValue =~= empty_enumerated_values().enumeratedValue);
        r
    }
}

/// A named value of a field; `value` is written in decimal, or in hex after `0x`.
pub struct EnumeratedValue {
    pub name: String,
    pub value: String,
    pub description: Option<String>,
}

/// The model of a `EnumeratedValue`.
pub struct EnumeratedValueV {
    pub name: Seq<char>,
    pub value: Seq<char>,
    pub description: Option<Seq<char>>,
}

impl View for EnumeratedValue {
    type V = EnumeratedValueV;

    open spec fn view(&self) -> EnumeratedValueV {
        EnumeratedValueV {
            name: self.name@,
            value: self.value@,
            description: opt_text(self.description),
        }
    }
}

/// The model of a `EnumeratedValue` with no element read yet.
pub open spec fn empty_enumerated_value() -> EnumeratedValueV {
    EnumeratedValueV {
        name: Seq::empty(),
        value: Seq::empty(),
        description: None,
    }
}

impl EnumeratedValue {
    /// A `EnumeratedValue` with no element read yet.
    pub fn empty() -> (r: EnumeratedValue)
        ensures
            r@ == empty_enumerated_value(),
    {
        let r = EnumeratedValue {
            name: String::new(),
            value: String::new(),
            description: None,
        };
        r
    }
}

/// The processor of a device.
pub struct CPU {
    pub name: String,
    pub revision: String,
}

/// The model of a `CPU`.
pub struct CPUV {
    pub name: Seq<char>,
    pub revision: Seq<char>,
}

impl View for CPU {
    type V = CPUV;

    open spec fn view(&self) -> CPUV {
        CPUV {
            name: self.name@,
            revision: self.revision@,
        }
    }
}

/// The model of a `CPU` with no element read yet.
pub open spec fn empty_cpu() -> CPUV {
    CPUV {
        name: Seq::empty(),
        revision: Seq::empty(),
    }
}

impl CPU {
    /// A `CPU` with no element read yet.
    pub fn empty() -> (r: CPU)
        ensures
            r@ == empty_cpu(),
    {
        let r = CPU {
            name: String::new(),
            revision: String::new(),
        };
        r
    }
}

/// The models of a list of `Cluster`.
pub open spec fn cluster_list_view(s: Seq<Cluster>) -> Seq<ClusterV> {
    s.map_values(|x: Cluster| x@)
}

/// The models of a list of `EnumeratedValue`.
pub open spec fn enumerated_value_list_view(s: Seq<EnumeratedValue>) -> Seq<EnumeratedValueV> {
    s.map_values(|x: EnumeratedValue| x@)
}

/// The models of a list of `Field`.
pub open spec fn field_list_view(s: Seq<Field>) -> Seq<FieldV> {
    s.map_values(|x: Field| x@)
}

/// The models of a list of `Peripheral`.
pub open spec fn peripheral_list_view(s: Seq<Peripheral>) -> Seq<PeripheralV> {
    s.map_values(|x: Peripheral| x@)
}

/// The models of a list of `Register`.
pub open spec fn register_list_view(s: Seq<Register>) -> Seq<RegisterV> {
    s.map_values(|x: Register| x@)
}

} // verus!
