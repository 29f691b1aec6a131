//! The readers of the device description as `FromXml` impls: a part of the
//! description, its text, or a number, each from its own element.

#![allow(non_snake_case)]

use vstd::prelude::*;
use crate::fromxml::{FromXml, XmlEventV, XmlIter, St};
use crate::ioregs::model::{DeviceV, PeripheralV, InterruptV, RegisterV, ClusterV, FieldV, EnumeratedValueV, CPUV, RegsV, Device, Peripheral, Interrupt, Register, Cluster, Field, EnumeratedValue, CPU, Regs};
use crate::ioregs::decode::{spec_device, decode_device, spec_peripheral, decode_peripheral, spec_interrupt, decode_interrupt, spec_register, decode_register, spec_cluster, decode_cluster, spec_field, decode_field, spec_enumerated_value, decode_enumerated_value, spec_cpu, decode_cpu, spec_regs, decode_regs, spec_text, spec_number, read_text, read_number};

verus! {

impl FromXml for Device {
    open spec fn spec_from_xml(evs: Seq<XmlEventV>, st: St) -> Result<(DeviceV, St), ()> {
        spec_device(evs, st)
    }

    fn from_xml(iter: &mut XmlIter) -> (r: Result<Device, ()>) {
        decode_device(iter)
    }
}

impl FromXml for Peripheral {
    open spec fn spec_from_xml(evs: Seq<XmlEventV>, st: St) -> Result<(PeripheralV, St), ()> {
        spec_peripheral(evs, st)
    }

    fn from_xml(iter: &mut XmlIter) -> (r: Result<Peripheral, ()>) {
        decode_peripheral(iter)
    }
}

impl FromXml for Interrupt {
    open spec fn spec_from_xml(evs: Seq<XmlEventV>, st: St) -> Result<(InterruptV, St), ()> {
        spec_interrupt(evs, st)
    }

    fn from_xml(iter: &mut XmlIter) -> (r: Result<Interrupt, ()>) {
        decode_interrupt(iter)
    }
}

impl FromXml for Register {
    open spec fn spec_from_xml(evs: Seq<XmlEventV>, st: St) -> Result<(RegisterV, St), ()> {
        spec_register(evs, st)
    }

    fn from_xml(iter: &mut XmlIter) -> (r: Result<Register, ()>) {
        decode_register(iter)
    }
}

impl FromXml for Cluster {
    open spec fn spec_from_xml(evs: Seq<XmlEventV>, st: St) -> Result<(ClusterV, St), ()> {
        spec_cluster(evs, st)
    }

    fn from_xml(iter: &mut XmlIter) -> (r: Result<Cluster, ()>) {
        decode_cluster(iter)
    }
}

impl FromXml for Field {
    open spec fn spec_from_xml(evs: Seq<XmlEventV>, st: St) -> Result<(FieldV, St), ()> {
        spec_field(evs, st)
    }

    fn from_xml(iter: &mut XmlIter) -> (r: Result<Field, ()>) {
        decode_field(iter)
    }
}

impl FromXml for EnumeratedValue {
    open spec fn spec_from_xml(evs: Seq<XmlEventV>, st: St) -> Result<(EnumeratedValueV, St), ()> {
        spec_enumerated_value(evs, st)
    }

    fn from_xml(iter: &mut XmlIter) -> (r: Result<EnumeratedValue, ()>) {
        decode_enumerated_value(iter)
    }
}

impl FromXml for CPU {
    open spec fn spec_from_xml(evs: Seq<XmlEventV>, st: St) -> Result<(CPUV, St), ()> {
        spec_cpu(evs, st)
    }

    fn from_xml(iter: &mut XmlIter) -> (r: Result<CPU, ()>) {
        decode_cpu(iter)
    }
}

impl FromXml for Regs {
    open spec fn spec_from_xml(evs: Seq<XmlEventV>, st: St) -> Result<(RegsV, St), ()> {
        spec_regs(evs, st)
    }

    fn from_xml(iter: &mut XmlIter) -> (r: Result<Regs, ()>) {
        decode_regs(iter)
    }
}

impl FromXml for String {
    open spec fn spec_from_xml(evs: Seq<XmlEventV>, st: St) -> Result<(Seq<char>, St), ()> {
        spec_text(evs, st)
    }

    fn from_xml(iter: &mut XmlIter) -> (r: Result<String, ()>) {
        read_text(iter)
    }
}

impl FromXml for usize {
    open spec fn spec_from_xml(evs: Seq<XmlEventV>, st: St) -> Result<(usize, St), ()> {
        spec_number(evs, st)
    }

    fn from_xml(iter: &mut XmlIter) -> (r: Result<usize, ()>) {
        read_number(iter)
    }
}

} // verus!
