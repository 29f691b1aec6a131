//! Reading the device description from the events of its XML document:
//! each element's children by tag name, its text, and lists of elements.

#![allow(non_snake_case)]

use vstd::prelude::*;
use crate::fromxml::{XmlIter, XmlEventV, St, ev_name, child_loop, text_loop, skip_loop};
use crate::text::{spec_parse_usize, parse_usize, str_eq};
use crate::ioregs::model::{
    Device, DeviceV, empty_device,
    Peripheral, PeripheralV, empty_peripheral,
    Interrupt, InterruptV, empty_interrupt,
    Register, RegisterV, empty_register,
    Cluster, ClusterV, empty_cluster,
    Field, FieldV, empty_field,
    EnumeratedValue, EnumeratedValueV, empty_enumerated_value,
    CPU, CPUV, empty_cpu,
    Regs, RegsV,
    peripheral_list_view,
    regs_list_view,
    field_list_view,
    enumerated_value_list_view,
    register_list_view,
};

verus! {

/// The text of the element open at the walk's depth, up to its end.
pub open spec fn spec_text(evs: Seq<XmlEventV>, st: St) -> Result<(Seq<char>, St), ()> {
    text_loop(evs, st, st.stack.len() as int, Seq::empty())
}

/// The text of the open element read as a decimal number.
pub open spec fn spec_number(evs: Seq<XmlEventV>, st: St) -> Result<(usize, St), ()> {
    match spec_text(evs, st) {
        Ok((t, s)) => match spec_parse_usize(t, 10) {
            Some(n) => Ok((n, s)),
            None => Err(()),
        },
        Err(_) => Err(()),
    }
}

/// The walk past the open element.
pub open spec fn spec_skip(evs: Seq<XmlEventV>, st: St) -> Result<St, ()> {
    skip_loop(evs, st, st.stack.len() as int)
}

/// Reads the text of the open element.
pub fn read_text(it: &mut XmlIter) -> (r: Result<String, ()>)
    requires
        old(it).wf(),
    ensures
        final(it).wf(),
        final(it).evs() == old(it).evs(),
        match spec_text(old(it).evs(), old(it).st()) {
            Ok((t, s)) => r matches Ok(x) && x@ == t && final(it).st() == s,
            Err(_) => r is Err,
        },
{
    it.inner_text()
}

/// Reads the text of the open element as a decimal number.
pub fn read_number(it: &mut XmlIter) -> (r: Result<usize, ()>)
    requires
        old(it).wf(),
    ensures
        final(it).wf(),
        final(it).evs() == old(it).evs(),
        match spec_number(old(it).evs(), old(it).st()) {
            Ok((n, s)) => r == Ok::<usize, ()>(n) && final(it).st() == s,
            Err(_) => r is Err,
        },
{
    match it.inner_text() {
        Ok(t) => match parse_usize(t.as_str(), 10) {
            Some(n) => Ok(n),
            None => Err(()),
        },
        Err(()) => Err(()),
    }
}

/// The children of the open `Device` element from `st` on, each read into
/// the field of its tag name and any other skipped, after `obj`.
/// A read that does not move the walk on is refused.
pub open spec fn spec_device_fields(evs: Seq<XmlEventV>, st: St, depth: int, obj: DeviceV) -> Result<(DeviceV, St), ()>
    decreases evs.len() - st.pos,
{
    match child_loop(evs, st, depth) {
        Err(_) => Err(()),
        Ok((None, s)) => Ok((obj, s)),
        Ok((Some(_), s)) => {
            let tag = ev_name(evs[s.stack.last()]);
            let step = {
                if tag == "vendor"@ {
                    match spec_text(evs, s) {
                        Ok((v, s2)) => Ok((DeviceV { vendor: Some(v), ..obj }, s2)),
                        Err(_) => Err(()),
                    }
                } else if tag == "vendorID"@ {
                    match spec_text(evs, s) {
                        Ok((v, s2)) => Ok((DeviceV { vendorID: Some(v), ..obj }, s2)),
                        Err(_) => Err(()),
                    }
                } else if tag == "licenseText"@ {
                    match spec_text(evs, s) {
                        Ok((v, s2)) => Ok((DeviceV { licenseText: Some(v), ..obj }, s2)),
                        Err(_) => Err(()),
                    }
                } else if tag == "series"@ {
                    match spec_text(evs, s) {
                        Ok((v, s2)) => Ok((DeviceV { series: Some(v), ..obj }, s2)),
                        Err(_) => Err(()),
                    }
                } else if tag == "version"@ {
                    match spec_text(evs, s) {
                        Ok((v, s2)) => Ok((DeviceV { version: Some(v), ..obj }, s2)),
                        Err(_) => Err(()),
                    }
                } else if tag == "description"@ {
                    match spec_text(evs, s) {
                        Ok((v, s2)) => Ok((DeviceV { description: Some(v), ..obj }, s2)),
                        Err(_) => Err(()),
                    }
                } else if tag == "cpu"@ {
                    match spec_cpu(evs, s) {
                        Ok((v, s2)) => Ok((DeviceV { cpu: Some(v), ..obj }, s2)),
                        Err(_) => Err(()),
                    }
                } else if tag == "peripherals"@ {
                    match spec_peripheral_list(evs, s) {
                        Ok((v, s2)) => Ok((DeviceV { peripherals: v, ..obj }, s2)),
                        Err(_) => Err(()),
                    }
                } else {
                    match spec_skip(evs, s) {
                        Ok(s2) => Ok((obj, s2)),
                        Err(_) => Err(()),
                    }
                }
            };
            match step {
                Err(_) => Err(()),
                Ok((o2, s2)) => if st.pos < s2.pos <= evs.len() {
                    spec_device_fields(evs, s2, depth, o2)
                } else {
                    Err(())
                },
            }
        },
    }
}

/// A `Device` read from the open element.
pub open spec fn spec_device(evs: Seq<XmlEventV>, st: St) -> Result<(DeviceV, St), ()> {
    spec_device_fields(evs, st, st.stack.len() as int, empty_device())
}

/// Reads a `Device` from the open element, up to its end.
pub fn decode_device(it: &mut XmlIter) -> (r: Result<Device, ()>)
    requires
        old(it).wf(),
    ensures
        final(it).wf(),
        final(it).evs() == old(it).evs(),
        match spec_device(old(it).evs(), old(it).st()) {
            Ok((v, s)) => r matches Ok(x) && x@ == v && final(it).st() == s,
            Err(_) => r is Err,
        },
{
    let ghost evs = it.evs();
    let depth = it.depth();
    let mut obj = Device::empty();
    loop
        invariant
            it.wf(),
            it.evs() == evs,
            evs == old(it).evs(),
            depth == old(it).st().stack.len(),
            spec_device(evs, old(it).st()) == spec_device_fields(evs, it.st(), depth as int, obj@),
        decreases evs.len() - it.st().pos,
    {
        let p0 = it.pos();
        match it.next_child(depth) {
            Err(()) => {
                return Err(());
            },
            Ok(None) => {
                return Ok(obj);
            },
            Ok(Some(_)) => {
                let tag = it.tag_name();
                if str_eq(tag, "vendor") {
                    match read_text(it) {
                        Ok(v) => {
                            obj.vendor = Some(v);
                        },
                        Err(()) => {
                            return Err(());
                        },
                    }
                } else if str_eq(tag, "vendorID") {
                    match read_text(it) {
                        Ok(v) => {
                            obj.vendorID = Some(v);
                        },
                        Err(()) => {
                            return Err(());
                        },
                    }
                } else if str_eq(tag, "licenseText") {
                    match read_text(it) {
                        Ok(v) => {
                            obj.licenseText = Some(v);
                        },
                        Err(()) => {
                            return Err(());
                        },
                    }
                } else if str_eq(tag, "series") {
                    match read_text(it) {
                        Ok(v) => {
                            obj.series = Some(v);
                        },
                        Err(()) => {
                            return Err(());
                        },
                    }
                } else if str_eq(tag, "version") {
                    match read_text(it) {
                        Ok(v) => {
                            obj.version = Some(v);
                        },
                        Err(()) => {
                            return Err(());
                        },
                    }
                } else if str_eq(tag, "description") {
                    match read_text(it) {
                        Ok(v) => {
                            obj.description = Some(v);
                        },
                        Err(()) => {
                            return Err(());
                        },
                    }
                } else if str_eq(tag, "cpu") {
                    match decode_cpu(it) {
                        Ok(v) => {
                            obj.cpu = Some(v);
                        },
                        Err(()) => {
                            return Err(());
                        },
                    }
                } else if str_eq(tag, "peripherals") {
                    match decode_peripheral_list(it) {
                        Ok(v) => {
                            obj.peripherals = v;
                        },
                        Err(()) => {
                            return Err(());
                        },
                    }
                } else {
                    match it.skip_node() {
                        Ok(()) => {},
                        Err(()) => {
                            return Err(());
                        },
                    }
                }
            },
        }
        if it.pos() <= p0 {
            return Err(());
        }
    }
}

/// The children of the open `Peripheral` element from `st` on, each read into
/// the field of its tag name and any other skipped, after `obj`.
/// A read that does not move the walk on is refused.
pub open spec fn spec_peripheral_fields(evs: Seq<XmlEventV>, st: St, depth: int, obj: PeripheralV) -> Result<(PeripheralV, St), ()>
    decreases evs.len() - st.pos,
{
    match child_loop(evs, st, depth) {
        Err(_) => Err(()),
        Ok((None, s)) => Ok((obj, s)),
        Ok((Some(_), s)) => {
            let tag = ev_name(evs[s.stack.last()]);
            let step = {
                if tag == "name"@ {
                    match spec_text(evs, s) {
                        Ok((v, s2)) => Ok((PeripheralV { name: v, ..obj }, s2)),
                        Err(_) => Err(()),
                    }
                } else if tag == "version"@ {
                    match spec_text(evs, s) {
                        Ok((v, s2)) => Ok((PeripheralV { version: Some(v), ..obj }, s2)),
                        Err(_) => Err(()),
                    }
                } else if tag == "description"@ {
                    match spec_text(evs, s) {
                        Ok((v, s2)) => Ok((PeripheralV { description: Some(v), ..obj }, s2)),
                        Err(_) => Err(()),
                    }
                } else if tag == "groupName"@ {
                    match spec_text(evs, s) {
                        Ok((v, s2)) => Ok((PeripheralV { groupName: Some(v), ..obj }, s2)),
                        Err(_) => Err(()),
                    }
                } else if tag == "prependToName"@ {
                    match spec_text(evs, s) {
                        Ok((v, s2)) => Ok((PeripheralV { prependToName: Some(v), ..obj }, s2)),
                        Err(_) => Err(()),
                    }
                } else if tag == "baseAddress"@ {
                    match spec_text(evs, s) {
                        Ok((v, s2)) => Ok((PeripheralV { baseAddress: Some(v), ..obj }, s2)),
                        Err(_) => Err(()),
                    }
                } else if tag == "access"@ {
                    match spec_text(evs, s) {
                        Ok((v, s2)) => Ok((PeripheralV { access: Some(v), ..obj }, s2)),
                        Err(_) => Err(()),
                    }
                } else if tag == "interrupt"@ {
                    match spec_interrupt(evs, s) {
                        Ok((v, s2)) => Ok((PeripheralV { interrupt: Some(v), ..obj }, s2)),
                        Err(_) => Err(()),
                    }
                } else if tag == "registers"@ {
                    match spec_regs_list(evs, s) {
                        Ok((v, s2)) => Ok((PeripheralV { registers: v, ..obj }, s2)),
                        Err(_) => Err(()),
                    }
                } else {
                    match spec_skip(evs, s) {
                        Ok(s2) => Ok((obj, s2)),
                        Err(_) => Err(()),
                    }
                }
            };
            match step {
                Err(_) => Err(()),
                Ok((o2, s2)) => if st.pos < s2.pos <= evs.len() {
                    spec_peripheral_fields(evs, s2, depth, o2)
                } else {
                    Err(())
                },
            }
        },
    }
}

/// A `Peripheral` read from the open element.
pub open spec fn spec_peripheral(evs: Seq<XmlEventV>, st: St) -> Result<(PeripheralV, St), ()> {
    spec_peripheral_fields(evs, st, st.stack.len() as int, empty_peripheral())
}

/// Reads a `Peripheral` from the open element, up to its end.
pub fn decode_peripheral(it: &mut XmlIter) -> (r: Result<Peripheral, ()>)
    requires
        old(it).wf(),
    ensures
        final(it).wf(),
        final(it).evs() == old(it).evs(),
        match spec_peripheral(old(it).evs(), old(it).st()) {
            Ok((v, s)) => r matches Ok(x) && x@ == v && final(it).st() == s,
            Err(_) => r is Err,
        },
{
    let ghost evs = it.evs();
    let depth = it.depth();
    let mut obj = Peripheral::empty();
    loop
        invariant
            it.wf(),
            it.evs() == evs,
            evs == old(it).evs(),
            depth == old(it).st().stack.len(),
            spec_peripheral(evs, old(it).st()) == spec_peripheral_fields(evs, it.st(), depth as int, obj@),
        decreases evs.len() - it.st().pos,
    {
        let p0 = it.pos();
        match it.next_child(depth) {
            Err(()) => {
                return Err(());
            },
            Ok(None) => {
                return Ok(obj);
            },
            Ok(Some(_)) => {
                let tag = it.tag_name();
                if str_eq(tag, "name") {
                    match read_text(it) {
                        Ok(v) => {
                            obj.name = v;
                        },
                        Err(()) => {
                            return Err(());
                        },
                    }
                } else if str_eq(tag, "version") {
                    match read_text(it) {
                        Ok(v) => {
                            obj.version = Some(v);
                        },
                        Err(()) => {
                            return Err(());
                        },
                    }
                } else if str_eq(tag, "description") {
                    match read_text(it) {
                        Ok(v) => {
                            obj.description = Some(v);
                        },
                        Err(()) => {
                            return Err(());
                        },
                    }
                } else if str_eq(tag, "groupName") {
                    match read_text(it) {
                        Ok(v) => {
                            obj.groupName = Some(v);
                        },
                        Err(()) => {
                            return Err(());
                        },
                    }
                } else if str_eq(tag, "prependToName") {
                    match read_text(it) {
                        Ok(v) => {
                            obj.prependToName = Some(v);
                        },
                        Err(()) => {
                            return Err(());
                        },
                    }
                } else if str_eq(tag, "baseAddress") {
                    match read_text(it) {
                        Ok(v) => {
                            obj.baseAddress = Some(v);
                        },
                        Err(()) => {
                            return Err(());
                        },
                    }
                } else if str_eq(tag, "access") {
                    match read_text(it) {
                        Ok(v) => {
                            obj.access = Some(v);
                        },
                        Err(()) => {
                            return Err(());
                        },
                    }
                } else if str_eq(tag, "interrupt") {
                    match decode_interrupt(it) {
                        Ok(v) => {
                            obj.interrupt = Some(v);
                        },
                        Err(()) => {
                            return Err(());
                        },
                    }
                } else if str_eq(tag, "registers") {
                    match decode_regs_list(it) {
                        Ok(v) => {
                            obj.registers = v;
                        },
                        Err(()) => {
                            return Err(());
                        },
                    }
                } else {
                    match it.skip_node() {
                        Ok(()) => {},
                        Err(()) => {
                            return Err(());
                        },
                    }
                }
            },
        }
        if it.pos() <= p0 {
            return Err(());
        }
    }
}

/// The children of the open `Interrupt` element from `st` on, each read into
/// the field of its tag name and any other skipped, after `obj`.
/// A read that does not move the walk on is refused.
pub open spec fn spec_interrupt_fields(evs: Seq<XmlEventV>, st: St, depth: int, obj: InterruptV) -> Result<(InterruptV, St), ()>
    decreases evs.len() - st.pos,
{
    match child_loop(evs, st, depth) {
        Err(_) => Err(()),
        Ok((None, s)) => Ok((obj, s)),
        Ok((Some(_), s)) => {
            let tag = ev_name(evs[s.stack.last()]);
            let step = {
                if tag == "name"@ {
                    match spec_text(evs, s) {
                        Ok((v, s2)) => Ok((InterruptV { name: v, ..obj }, s2)),
                        Err(_) => Err(()),
                    }
                } else if tag == "value"@ {
                    match spec_number(evs, s) {
                        Ok((v, s2)) => Ok((InterruptV { value: Some(v), ..obj }, s2)),
                        Err(_) => Err(()),
                    }
                } else {
                    match spec_skip(evs, s) {
                        Ok(s2) => Ok((obj, s2)),
                        Err(_) => Err(()),
                    }
                }
            };
            match step {
                Err(_) => Err(()),
                Ok((o2, s2)) => if st.pos < s2.pos <= evs.len() {
                    spec_interrupt_fields(evs, s2, depth, o2)
                } else {
                    Err(())
                },
            }
        },
    }
}

/// A `Interrupt` read from the open element.
pub open spec fn spec_interrupt(evs: Seq<XmlEventV>, st: St) -> Result<(InterruptV, St), ()> {
    spec_interrupt_fields(evs, st, st.stack.len() as int, empty_interrupt())
}

/// Reads a `Interrupt` from the open element, up to its end.
pub fn decode_interrupt(it: &mut XmlIter) -> (r: Result<Interrupt, ()>)
    requires
        old(it).wf(),
    ensures
        final(it).wf(),
        final(it).evs() == old(it).evs(),
        match spec_interrupt(old(it).evs(), old(it).st()) {
            Ok((v, s)) => r matches Ok(x) && x@ == v && final(it).st() == s,
            Err(_) => r is Err,
        },
{
    let ghost evs = it.evs();
    let depth = it.depth();
    let mut obj = Interrupt::empty();
    loop
        invariant
            it.wf(),
            it.evs() == evs,
            evs == old(it).evs(),
            depth == old(it).st().stack.len(),
            spec_interrupt(evs, old(it).st()) == spec_interrupt_fields(evs, it.st(), depth as int, obj@),
        decreases evs.len() - it.st().pos,
    {
        let p0 = it.pos();
        match it.next_child(depth) {
            Err(()) => {
                return Err(());
            },
            Ok(None) => {
                return Ok(obj);
            },
            Ok(Some(_)) => {
                let tag = it.tag_name();
                if str_eq(tag, "name") {
                    match read_text(it) {
                        Ok(v) => {
                            obj.name = v;
                        },
                        Err(()) => {
                            return Err(());
                        },
                    }
                } else if str_eq(tag, "value") {
                    match read_number(it) {
                        Ok(v) => {
                            obj.value = Some(v);
                        },
                        Err(()) => {
                            return Err(());
                        },
                    }
                } else {
                    match it.skip_node() {
                        Ok(()) => {},
                        Err(()) => {
                            return Err(());
                        },
                    }
                }
            },
        }
        if it.pos() <= p0 {
            return Err(());
        }
    }
}

/// The children of the open `Register` element from `st` on, each read into
/// the field of its tag name and any other skipped, after `obj`.
/// A read that does not move the walk on is refused.
pub open spec fn spec_register_fields(evs: Seq<XmlEventV>, st: St, depth: int, obj: RegisterV) -> Result<(RegisterV, St), ()>
    decreases evs.len() - st.pos,
{
    match child_loop(evs, st, depth) {
        Err(_) => Err(()),
        Ok((None, s)) => Ok((obj, s)),
        Ok((Some(_), s)) => {
            let tag = ev_name(evs[s.stack.last()]);
            let step = {
                if tag == "name"@ {
                    match spec_text(evs, s) {
                        Ok((v, s2)) => Ok((RegisterV { name: v, ..obj }, s2)),
                        Err(_) => Err(()),
                    }
                } else if tag == "dim"@ {
                    match spec_number(evs, s) {
                        Ok((v, s2)) => Ok((RegisterV { dim: Some(v), ..obj }, s2)),
                        Err(_) => Err(()),
                    }
                } else if tag == "dimIncrement"@ {
                    match spec_text(evs, s) {
                        Ok((v, s2)) => Ok((RegisterV { dimIncrement: Some(v), ..obj }, s2)),
                        Err(_) => Err(()),
                    }
                } else if tag == "description"@ {
                    match spec_text(evs, s) {
                        Ok((v, s2)) => Ok((RegisterV { description: Some(v), ..obj }, s2)),
                        Err(_) => Err(()),
                    }
                } else if tag == "addressOffset"@ {
                    match spec_text(evs, s) {
                        Ok((v, s2)) => Ok((RegisterV { addressOffset: Some(v), ..obj }, s2)),
                        Err(_) => Err(()),
                    }
                } else if tag == "size"@ {
                    match spec_number(evs, s) {
                        Ok((v, s2)) => Ok((RegisterV { size: Some(v), ..obj }, s2)),
                        Err(_) => Err(()),
                    }
                } else if tag == "access"@ {
                    match spec_text(evs, s) {
                        Ok((v, s2)) => Ok((RegisterV { access: Some(v), ..obj }, s2)),
                        Err(_) => Err(()),
                    }
                } else if tag == "fields"@ {
                    match spec_field_list(evs, s) {
                        Ok((v, s2)) => Ok((RegisterV { fields: v, ..obj }, s2)),
                        Err(_) => Err(()),
                    }
                } else {
                    match spec_skip(evs, s) {
                        Ok(s2) => Ok((obj, s2)),
                        Err(_) => Err(()),
                    }
                }
            };
            match step {
                Err(_) => Err(()),
                Ok((o2, s2)) => if st.pos < s2.pos <= evs.len() {
                    spec_register_fields(evs, s2, depth, o2)
                } else {
                    Err(())
                },
            }
        },
    }
}

/// A `Register` read from the open element.
pub open spec fn spec_register(evs: Seq<XmlEventV>, st: St) -> Result<(RegisterV, St), ()> {
    spec_register_fields(evs, st, st.stack.len() as int, empty_register())
}

/// Reads a `Register` from the open element, up to its end.
pub fn decode_register(it: &mut XmlIter) -> (r: Result<Register, ()>)
    requires
        old(it).wf(),
    ensures
        final(it).wf(),
        final(it).evs() == old(it).evs(),
        match spec_register(old(it).evs(), old(it).st()) {
            Ok((v, s)) => r matches Ok(x) && x@ == v && final(it).st() == s,
            Err(_) => r is Err,
        },
{
    let ghost evs = it.evs();
    let depth = it.depth();
    let mut obj = Register::empty();
    loop
        invariant
            it.wf(),
            it.evs() == evs,
            evs == old(it).evs(),
            depth == old(it).st().stack.len(),
            spec_register(evs, old(it).st()) == spec_register_fields(evs, it.st(), depth as int, obj@),
        decreases evs.len() - it.st().pos,
    {
        let p0 = it.pos();
        match it.next_child(depth) {
            Err(()) => {
                return Err(());
            },
            Ok(None) => {
                return Ok(obj);
            },
            Ok(Some(_)) => {
                let tag = it.tag_name();
                if str_eq(tag, "name") {
                    match read_text(it) {
                        Ok(v) => {
                            obj.name = v;
                        },
                        Err(()) => {
                            return Err(());
                        },
                    }
                } else if str_eq(tag, "dim") {
                    match read_number(it) {
                        Ok(v) => {
                            obj.dim = Some(v);
                        },
                        Err(()) => {
                            return Err(());
                        },
                    }
                } else if str_eq(tag, "dimIncrement") {
                    match read_text(it) {
                        Ok(v) => {
                            obj.dimIncrement = Some(v);
                        },
                        Err(()) => {
                            return Err(());
                        },
                    }
                } else if str_eq(tag, "description") {
                    match read_text(it) {
                        Ok(v) => {
                            obj.description = Some(v);
                        },
                        Err(()) => {
                            return Err(());
                        },
                    }
                } else if str_eq(tag, "addressOffset") {
                    match read_text(it) {
                        Ok(v) => {
                            obj.addressOffset = Some(v);
                        },
                        Err(()) => {
                            return Err(());
                        },
                    }
                } else if str_eq(tag, "size") {
                    match read_number(it) {
                        Ok(v) => {
                            obj.size = Some(v);
                        },
                        Err(()) => {
                            return Err(());
                        },
                    }
                } else if str_eq(tag, "access") {
                    match read_text(it) {
                        Ok(v) => {
                            obj.access = Some(v);
                        },
                        Err(()) => {
                            return Err(());
                        },
                    }
                } else if str_eq(tag, "fields") {
                    match decode_field_list(it) {
                        Ok(v) => {
                            obj.fields = v;
                        },
                        Err(()) => {
                            return Err(());
                        },
                    }
                } else {
                    match it.skip_node() {
                        Ok(()) => {},
                        Err(()) => {
                            return Err(());
                        },
                    }
                }
            },
        }
        if it.pos() <= p0 {
            return Err(());
        }
    }
}

/// The children of the open `Cluster` element from `st` on, each read into
/// the field of its tag name and any other skipped, after `obj`.
/// A read that does not move the walk on is refused.
pub open spec fn spec_cluster_fields(evs: Seq<XmlEventV>, st: St, depth: int, obj: ClusterV) -> Result<(ClusterV, St), ()>
    decreases evs.len() - st.pos,
{
    match child_loop(evs, st, depth) {
        Err(_) => Err(()),
        Ok((None, s)) => Ok((obj, s)),
        Ok((Some(_), s)) => {
            let tag = ev_name(evs[s.stack.last()]);
            let step = {
                if tag == "name"@ {
                    match spec_text(evs, s) {
                        Ok((v, s2)) => Ok((ClusterV { name: v, ..obj }, s2)),
                        Err(_) => Err(()),
                    }
                } else if tag == "register"@ {
                    match spec_register(evs, s) {
                        Ok((v, s2)) => Ok((ClusterV { registers: obj.registers.push(v), ..obj }, s2)),
                        Err(_) => Err(()),
                    }
                } else {
                    match spec_skip(evs, s) {
                        Ok(s2) => Ok((obj, s2)),
                        Err(_) => Err(()),
                    }
                }
            };
            match step {
                Err(_) => Err(()),
                Ok((o2, s2)) => if st.pos < s2.pos <= evs.len() {
                    spec_cluster_fields(evs, s2, depth, o2)
                } else {
                    Err(())
                },
            }
        },
    }
}

/// A `Cluster` read from the open element.
pub open spec fn spec_cluster(evs: Seq<XmlEventV>, st: St) -> Result<(ClusterV, St), ()> {
    spec_cluster_fields(evs, st, st.stack.len() as int, empty_cluster())
}

/// Reads a `Cluster` from the open element, up to its end.
pub fn decode_cluster(it: &mut XmlIter) -> (r: Result<Cluster, ()>)
    requires
        old(it).wf(),
    ensures
        final(it).wf(),
        final(it).evs() == old(it).evs(),
        match spec_cluster(old(it).evs(), old(it).st()) {
            Ok((v, s)) => r matches Ok(x) && x@ == v && final(it).st() == s,
            Err(_) => r is Err,
        },
{
    let ghost evs = it.evs();
    let depth = it.depth();
    let mut obj = Cluster::empty();
    loop
        invariant
            it.wf(),
            it.evs() == evs,
            evs == old(it).evs(),
            depth == old(it).st().stack.len(),
            spec_cluster(evs, old(it).st()) == spec_cluster_fields(evs, it.st(), depth as int, obj@),
        decreases evs.len() - it.st().pos,
    {
        let p0 = it.pos();
        match it.next_child(depth) {
            Err(()) => {
                return Err(());
            },
            Ok(None) => {
                return Ok(obj);
            },
            Ok(Some(_)) => {
                let tag = it.tag_name();
                if str_eq(tag, "name") {
                    match read_text(it) {
                        Ok(v) => {
                            obj.name = v;
                        },
                        Err(()) => {
                            return Err(());
                        },
                    }
                } else if str_eq(tag, "register") {
                    match decode_register(it) {
                        Ok(v) => {
                            let ghost prev = obj.registers@;
                            obj.registers.push(v);
                            proof {
                                assert(register_list_view(obj.registers@) =~= register_list_view(prev).push(v@));
                            }
                        },
                        Err(()) => {
                            return Err(());
                        },
                    }
                } else {
                    match it.skip_node() {
                        Ok(()) => {},
                        Err(()) => {
                            return Err(());
                        },
                    }
                }
            },
        }
        if it.pos() <= p0 {
            return Err(());
        }
    }
}

/// The children of the open `Field` element from `st` on, each read into
/// the field of its tag name and any other skipped, after `obj`.
/// A read that does not move the walk on is refused.
pub open spec fn spec_field_fields(evs: Seq<XmlEventV>, st: St, depth: int, obj: FieldV) -> Result<(FieldV, St), ()>
    decreases evs.len() - st.pos,
{
    match child_loop(evs, st, depth) {
        Err(_) => Err(()),
        Ok((None, s)) => Ok((obj, s)),
        Ok((Some(_), s)) => {
            let tag = ev_name(evs[s.stack.last()]);
            let step = {
                if tag == "name"@ {
                    match spec_text(evs, s) {
                        Ok((v, s2)) => Ok((FieldV { name: v, ..obj }, s2)),
                        Err(_) => Err(()),
                    }
                } else if tag == "description"@ {
                    match spec_text(evs, s) {
                        Ok((v, s2)) => Ok((FieldV { description: Some(v), ..obj }, s2)),
                        Err(_) => Err(()),
                    }
                } else if tag == "bitOffset"@ {
                    match spec_number(evs, s) {
                        Ok((v, s2)) => Ok((FieldV { bitOffset: Some(v), ..obj }, s2)),
                        Err(_) => Err(()),
                    }
                } else if tag == "bitWidth"@ {
                    match spec_number(evs, s) {
                        Ok((v, s2)) => Ok((FieldV { bitWidth: Some(v), ..obj }, s2)),
                        Err(_) => Err(()),
                    }
                } else if tag == "bitRange"@ {
                    match spec_text(evs, s) {
                        Ok((v, s2)) => Ok((FieldV { bitRange: Some(v), ..obj }, s2)),
                        Err(_) => Err(()),
                    }
                } else if tag == "access"@ {
                    match spec_text(evs, s) {
                        Ok((v, s2)) => Ok((FieldV { access: Some(v), ..obj }, s2)),
                        Err(_) => Err(()),
                    }
                } else if tag == "enumeratedValues"@ {
                    match spec_enumerated_value_list(evs, s) {
                        Ok((v, s2)) => Ok((FieldV { enumeratedValues: v, ..obj }, s2)),
                        Err(_) => Err(()),
                    }
                } else {
                    match spec_skip(evs, s) {
                        Ok(s2) => Ok((obj, s2)),
                        Err(_) => Err(()),
                    }
                }
            };
            match step {
                Err(_) => Err(()),
                Ok((o2, s2)) => if st.pos < s2.pos <= evs.len() {
                    spec_field_fields(evs, s2, depth, o2)
                } else {
                    Err(())
                },
            }
        },
    }
}

/// A `Field` read from the open element.
pub open spec fn spec_field(evs: Seq<XmlEventV>, st: St) -> Result<(FieldV, St), ()> {
    spec_field_fields(evs, st, st.stack.len() as int, empty_field())
}

/// Reads a `Field` from the open element, up to its end.
pub fn decode_field(it: &mut XmlIter) -> (r: Result<Field, ()>)
    requires
        old(it).wf(),
    ensures
        final(it).wf(),
        final(it).evs() == old(it).evs(),
        match spec_field(old(it).evs(), old(it).st()) {
            Ok((v, s)) => r matches Ok(x) && x@ == v && final(it).st() == s,
            Err(_) => r is Err,
        },
{
    let ghost evs = it.evs();
    let depth = it.depth();
    let mut obj = Field::empty();
    loop
        invariant
            it.wf(),
            it.evs() == evs,
            evs == old(it).evs(),
            depth == old(it).st().stack.len(),
            spec_field(evs, old(it).st()) == spec_field_fields(evs, it.st(), depth as int, obj@),
        decreases evs.len() - it.st().pos,
    {
        let p0 = it.pos();
        match it.next_child(depth) {
            Err(()) => {
                return Err(());
            },
            Ok(None) => {
                return Ok(obj);
            },
            Ok(Some(_)) => {
                let tag = it.tag_name();
                if str_eq(tag, "name") {
                    match read_text(it) {
                        Ok(v) => {
                            obj.name = v;
                        },
                        Err(()) => {
                            return Err(());
                        },
                    }
                } else if str_eq(tag, "description") {
                    match read_text(it) {
                        Ok(v) => {
                            obj.description = Some(v);
                        },
                        Err(()) => {
                            return Err(());
                        },
                    }
                } else if str_eq(tag, "bitOffset") {
                    match read_number(it) {
                        Ok(v) => {
                            obj.bitOffset = Some(v);
                        },
                        Err(()) => {
                            return Err(());
                        },
                    }
                } else if str_eq(tag, "bitWidth") {
                    match read_number(it) {
                        Ok(v) => {
                            obj.bitWidth = Some(v);
                        },
                        Err(()) => {
                            return Err(());
                        },
                    }
                } else if str_eq(tag, "bitRange") {
                    match read_text(it) {
                        Ok(v) => {
                            obj.bitRange = Some(v);
                        },
                        Err(()) => {
                            return Err(());
                        },
                    }
                } else if str_eq(tag, "access") {
                    match read_text(it) {
                        Ok(v) => {
                            obj.access = Some(v);
                        },
                        Err(()) => {
                            return Err(());
                        },
                    }
                } else if str_eq(tag, "enumeratedValues") {
                    match decode_enumerated_value_list(it) {
                        Ok(v) => {
                            obj.enumeratedValues = v;
                        },
                        Err(()) => {
                            return Err(());
                        },
                    }
                } else {
                    match it.skip_node() {
                        Ok(()) => {},
                        Err(()) => {
                            return Err(());
                        },
                    }
                }
            },
        }
        if it.pos() <= p0 {
            return Err(());
        }
    }
}

/// The children of the open `EnumeratedValue` element from `st` on, each read into
/// the field of its tag name and any other skipped, after `obj`.
/// A read that does not move the walk on is refused.
pub open spec fn spec_enumerated_value_fields(evs: Seq<XmlEventV>, st: St, depth: int, obj: EnumeratedValueV) -> Result<(EnumeratedValueV, St), ()>
    decreases evs.len() - st.pos,
{
    match child_loop(evs, st, depth) {
        Err(_) => Err(()),
        Ok((None, s)) => Ok((obj, s)),
        Ok((Some(_), s)) => {
            let tag = ev_name(evs[s.stack.last()]);
            let step = {
                if tag == "name"@ {
                    match spec_text(evs, s) {
                        Ok((v, s2)) => Ok((EnumeratedValueV { name: v, ..obj }, s2)),
                        Err(_) => Err(()),
                    }
                } else if tag == "value"@ {
                    match spec_text(evs, s) {
                        Ok((v, s2)) => Ok((EnumeratedValueV { value: v, ..obj }, s2)),
                        Err(_) => Err(()),
                    }
                } else if tag == "description"@ {
                    match spec_text(evs, s) {
                        Ok((v, s2)) => Ok((EnumeratedValueV { description: Some(v), ..obj }, s2)),
                        Err(_) => Err(()),
                    }
                } else {
                    match spec_skip(evs, s) {
                        Ok(s2) => Ok((obj, s2)),
                        Err(_) => Err(()),
                    }
                }
            };
            match step {
                Err(_) => Err(()),
                Ok((o2, s2)) => if st.pos < s2.pos <= evs.len() {
                    spec_enumerated_value_fields(evs, s2, depth, o2)
                } else {
                    Err(())
                },
            }
        },
    }
}

/// A `EnumeratedValue` read from the open element.
pub open spec fn spec_enumerated_value(evs: Seq<XmlEventV>, st: St) -> Result<(EnumeratedValueV, St), ()> {
    spec_enumerated_value_fields(evs, st, st.stack.len() as int, empty_enumerated_value())
}

/// Reads a `EnumeratedValue` from the open element, up to its end.
pub fn decode_enumerated_value(it: &mut XmlIter) -> (r: Result<EnumeratedValue, ()>)
    requires
        old(it).wf(),
    ensures
        final(it).wf(),
        final(it).evs() == old(it).evs(),
        match spec_enumerated_value(old(it).evs(), old(it).st()) {
            Ok((v, s)) => r matches Ok(x) && x@ == v && final(it).st() == s,
            Err(_) => r is Err,
        },
{
    let ghost evs = it.evs();
    let depth = it.depth();
    let mut obj = EnumeratedValue::empty();
    loop
        invariant
            it.wf(),
            it.evs() == evs,
            evs == old(it).evs(),
            depth == old(it).st().stack.len(),
            spec_enumerated_value(evs, old(it).st()) == spec_enumerated_value_fields(evs, it.st(), depth as int, obj@),
        decreases evs.len() - it.st().pos,
    {
        let p0 = it.pos();
        match it.next_child(depth) {
            Err(()) => {
                return Err(());
            },
            Ok(None) => {
                return Ok(obj);
            },
            Ok(Some(_)) => {
                let tag = it.tag_name();
                if str_eq(tag, "name") {
                    match read_text(it) {
                        Ok(v) => {
                            obj.name = v;
                        },
                        Err(()) => {
                            return Err(());
                        },
                    }
                } else if str_eq(tag, "value") {
                    match read_text(it) {
                        Ok(v) => {
                            obj.value = v;
                        },
                        Err(()) => {
                            return Err(());
                        },
                    }
                } else if str_eq(tag, "description") {
                    match read_text(it) {
                        Ok(v) => {
                            obj.description = Some(v);
                        },
                        Err(()) => {
                            return Err(());
                        },
                    }
                } else {
                    match it.skip_node() {
                        Ok(()) => {},
                        Err(()) => {
                            return Err(());
                        },
                    }
                }
            },
        }
        if it.pos() <= p0 {
            return Err(());
        }
    }
}

/// The children of the open `CPU` element from `st` on, each read into
/// the field of its tag name and any other skipped, after `obj`.
/// A read that does not move the walk on is refused.
pub open spec fn spec_cpu_fields(evs: Seq<XmlEventV>, st: St, depth: int, obj: CPUV) -> Result<(CPUV, St), ()>
    decreases evs.len() - st.pos,
{
    match child_loop(evs, st, depth) {
        Err(_) => Err(()),
        Ok((None, s)) => Ok((obj, s)),
        Ok((Some(_), s)) => {
            let tag = ev_name(evs[s.stack.last()]);
            let step = {
                if tag == "name"@ {
                    match spec_text(evs, s) {
                        Ok((v, s2)) => Ok((CPUV { name: Some(v), ..obj }, s2)),
                        Err(_) => Err(()),
                    }
                } else if tag == "revision"@ {
                    match spec_text(evs, s) {
                        Ok((v, s2)) => Ok((CPUV { revision: Some(v), ..obj }, s2)),
                        Err(_) => Err(()),
                    }
                } else {
                    match spec_skip(evs, s) {
                        Ok(s2) => Ok((obj, s2)),
                        Err(_) => Err(()),
                    }
                }
            };
            match step {
                Err(_) => Err(()),
                Ok((o2, s2)) => if st.pos < s2.pos <= evs.len() {
                    spec_cpu_fields(evs, s2, depth, o2)
                } else {
                    Err(())
                },
            }
        },
    }
}

/// A `CPU` read from the open element.
pub open spec fn spec_cpu(evs: Seq<XmlEventV>, st: St) -> Result<(CPUV, St), ()> {
    spec_cpu_fields(evs, st, st.stack.len() as int, empty_cpu())
}

/// Reads a `CPU` from the open element, up to its end.
pub fn decode_cpu(it: &mut XmlIter) -> (r: Result<CPU, ()>)
    requires
        old(it).wf(),
    ensures
        final(it).wf(),
        final(it).evs() == old(it).evs(),
        match spec_cpu(old(it).evs(), old(it).st()) {
            Ok((v, s)) => r matches Ok(x) && x@ == v && final(it).st() == s,
            Err(_) => r is Err,
        },
{
    let ghost evs = it.evs();
    let depth = it.depth();
    let mut obj = CPU::empty();
    loop
        invariant
            it.wf(),
            it.evs() == evs,
            evs == old(it).evs(),
            depth == old(it).st().stack.len(),
            spec_cpu(evs, old(it).st()) == spec_cpu_fields(evs, it.st(), depth as int, obj@),
        decreases evs.len() - it.st().pos,
    {
        let p0 = it.pos();
        match it.next_child(depth) {
            Err(()) => {
                return Err(());
            },
            Ok(None) => {
                return Ok(obj);
            },
            Ok(Some(_)) => {
                let tag = it.tag_name();
                if str_eq(tag, "name") {
                    match read_text(it) {
                        Ok(v) => {
                            obj.name = Some(v);
                        },
                        Err(()) => {
                            return Err(());
                        },
                    }
                } else if str_eq(tag, "revision") {
                    match read_text(it) {
                        Ok(v) => {
                            obj.revision = Some(v);
                        },
                        Err(()) => {
                            return Err(());
                        },
                    }
                } else {
                    match it.skip_node() {
                        Ok(()) => {},
                        Err(()) => {
                            return Err(());
                        },
                    }
                }
            },
        }
        if it.pos() <= p0 {
            return Err(());
        }
    }
}

/// The children of the open element from `st` on, each read as a `Peripheral`,
/// after `acc`. A read that does not move the walk on is refused.
pub open spec fn spec_peripheral_items(evs: Seq<XmlEventV>, st: St, depth: int, acc: Seq<PeripheralV>) -> Result<(Seq<PeripheralV>, St), ()>
    decreases evs.len() - st.pos,
{
    match child_loop(evs, st, depth) {
        Err(_) => Err(()),
        Ok((None, s)) => Ok((acc, s)),
        Ok((Some(_), s)) => match spec_peripheral(evs, s) {
            Err(_) => Err(()),
            Ok((v, s2)) => if st.pos < s2.pos <= evs.len() {
                spec_peripheral_items(evs, s2, depth, acc.push(v))
            } else {
                Err(())
            },
        },
    }
}

/// The list of `Peripheral` that the open element holds.
pub open spec fn spec_peripheral_list(evs: Seq<XmlEventV>, st: St) -> Result<(Seq<PeripheralV>, St), ()> {
    spec_peripheral_items(evs, st, st.stack.len() as int, Seq::empty())
}

/// Reads the list of `Peripheral` that the open element holds.
pub fn decode_peripheral_list(it: &mut XmlIter) -> (r: Result<Vec<Peripheral>, ()>)
    requires
        old(it).wf(),
    ensures
        final(it).wf(),
        final(it).evs() == old(it).evs(),
        match spec_peripheral_list(old(it).evs(), old(it).st()) {
            Ok((v, s)) => r matches Ok(x) && peripheral_list_view(x@) == v && final(it).st() == s,
            Err(_) => r is Err,
        },
{
    let ghost evs = it.evs();
    let depth = it.depth();
    let mut out: Vec<Peripheral> = Vec::new();
    assert(peripheral_list_view(out@) =~= Seq::<PeripheralV>::empty());
    loop
        invariant
            it.wf(),
            it.evs() == evs,
            evs == old(it).evs(),
            depth == old(it).st().stack.len(),
            spec_peripheral_list(evs, old(it).st()) == spec_peripheral_items(evs, it.st(), depth as int, peripheral_list_view(out@)),
        decreases evs.len() - it.st().pos,
    {
        let p0 = it.pos();
        match it.next_child(depth) {
            Err(()) => {
                return Err(());
            },
            Ok(None) => {
                return Ok(out);
            },
            Ok(Some(_)) => {},
        }
        match decode_peripheral(it) {
            Ok(v) => {
                let ghost prev = out@;
                out.push(v);
                proof {
                    assert(peripheral_list_view(out@) =~= peripheral_list_view(prev).push(v@));
                }
            },
            Err(()) => {
                return Err(());
            },
        }
        if it.pos() <= p0 {
            return Err(());
        }
    }
}

/// The children of the open element from `st` on, each read as a `Regs`,
/// after `acc`. A read that does not move the walk on is refused.
pub open spec fn spec_regs_items(evs: Seq<XmlEventV>, st: St, depth: int, acc: Seq<RegsV>) -> Result<(Seq<RegsV>, St), ()>
    decreases evs.len() - st.pos,
{
    match child_loop(evs, st, depth) {
        Err(_) => Err(()),
        Ok((None, s)) => Ok((acc, s)),
        Ok((Some(_), s)) => match spec_regs(evs, s) {
            Err(_) => Err(()),
            Ok((v, s2)) => if st.pos < s2.pos <= evs.len() {
                spec_regs_items(evs, s2, depth, acc.push(v))
            } else {
                Err(())
            },
        },
    }
}

/// The list of `Regs` that the open element holds.
pub open spec fn spec_regs_list(evs: Seq<XmlEventV>, st: St) -> Result<(Seq<RegsV>, St), ()> {
    spec_regs_items(evs, st, st.stack.len() as int, Seq::empty())
}

/// Reads the list of `Regs` that the open element holds.
pub fn decode_regs_list(it: &mut XmlIter) -> (r: Result<Vec<Regs>, ()>)
    requires
        old(it).wf(),
    ensures
        final(it).wf(),
        final(it).evs() == old(it).evs(),
        match spec_regs_list(old(it).evs(), old(it).st()) {
            Ok((v, s)) => r matches Ok(x) && regs_list_view(x@) == v && final(it).st() == s,
            Err(_) => r is Err,
        },
{
    let ghost evs = it.evs();
    let depth = it.depth();
    let mut out: Vec<Regs> = Vec::new();
    assert(regs_list_view(out@) =~= Seq::<RegsV>::empty());
    loop
        invariant
            it.wf(),
            it.evs() == evs,
            evs == old(it).evs(),
            depth == old(it).st().stack.len(),
            spec_regs_list(evs, old(it).st()) == spec_regs_items(evs, it.st(), depth as int, regs_list_view(out@)),
        decreases evs.len() - it.st().pos,
    {
        let p0 = it.pos();
        match it.next_child(depth) {
            Err(()) => {
                return Err(());
            },
            Ok(None) => {
                return Ok(out);
            },
            Ok(Some(_)) => {},
        }
        match decode_regs(it) {
            Ok(v) => {
                let ghost prev = out@;
                out.push(v);
                proof {
                    assert(regs_list_view(out@) =~= regs_list_view(prev).push(v@));
                }
            },
            Err(()) => {
                return Err(());
            },
        }
        if it.pos() <= p0 {
            return Err(());
        }
    }
}

/// The children of the open element from `st` on, each read as a `Field`,
/// after `acc`. A read that does not move the walk on is refused.
pub open spec fn spec_field_items(evs: Seq<XmlEventV>, st: St, depth: int, acc: Seq<FieldV>) -> Result<(Seq<FieldV>, St), ()>
    decreases evs.len() - st.pos,
{
    match child_loop(evs, st, depth) {
        Err(_) => Err(()),
        Ok((None, s)) => Ok((acc, s)),
        Ok((Some(_), s)) => match spec_field(evs, s) {
            Err(_) => Err(()),
            Ok((v, s2)) => if st.pos < s2.pos <= evs.len() {
                spec_field_items(evs, s2, depth, acc.push(v))
            } else {
                Err(())
            },
        },
    }
}

/// The list of `Field` that the open element holds.
pub open spec fn spec_field_list(evs: Seq<XmlEventV>, st: St) -> Result<(Seq<FieldV>, St), ()> {
    spec_field_items(evs, st, st.stack.len() as int, Seq::empty())
}

/// Reads the list of `Field` that the open element holds.
pub fn decode_field_list(it: &mut XmlIter) -> (r: Result<Vec<Field>, ()>)
    requires
        old(it).wf(),
    ensures
        final(it).wf(),
        final(it).evs() == old(it).evs(),
        match spec_field_list(old(it).evs(), old(it).st()) {
            Ok((v, s)) => r matches Ok(x) && field_list_view(x@) == v && final(it).st() == s,
            Err(_) => r is Err,
        },
{
    let ghost evs = it.evs();
    let depth = it.depth();
    let mut out: Vec<Field> = Vec::new();
    assert(field_list_view(out@) =~= Seq::<FieldV>::empty());
    loop
        invariant
            it.wf(),
            it.evs() == evs,
            evs == old(it).evs(),
            depth == old(it).st().stack.len(),
            spec_field_list(evs, old(it).st()) == spec_field_items(evs, it.st(), depth as int, field_list_view(out@)),
        decreases evs.len() - it.st().pos,
    {
        let p0 = it.pos();
        match it.next_child(depth) {
            Err(()) => {
                return Err(());
            },
            Ok(None) => {
                return Ok(out);
            },
            Ok(Some(_)) => {},
        }
        match decode_field(it) {
            Ok(v) => {
                let ghost prev = out@;
                out.push(v);
                proof {
                    assert(field_list_view(out@) =~= field_list_view(prev).push(v@));
                }
            },
            Err(()) => {
                return Err(());
            },
        }
        if it.pos() <= p0 {
            return Err(());
        }
    }
}

/// The children of the open element from `st` on, each read as a `EnumeratedValue`,
/// after `acc`. A read that does not move the walk on is refused.
pub open spec fn spec_enumerated_value_items(evs: Seq<XmlEventV>, st: St, depth: int, acc: Seq<EnumeratedValueV>) -> Result<(Seq<EnumeratedValueV>, St), ()>
    decreases evs.len() - st.pos,
{
    match child_loop(evs, st, depth) {
        Err(_) => Err(()),
        Ok((None, s)) => Ok((acc, s)),
        Ok((Some(_), s)) => match spec_enumerated_value(evs, s) {
            Err(_) => Err(()),
            Ok((v, s2)) => if st.pos < s2.pos <= evs.len() {
                spec_enumerated_value_items(evs, s2, depth, acc.push(v))
            } else {
                Err(())
            },
        },
    }
}

/// The list of `EnumeratedValue` that the open element holds.
pub open spec fn spec_enumerated_value_list(evs: Seq<XmlEventV>, st: St) -> Result<(Seq<EnumeratedValueV>, St), ()> {
    spec_enumerated_value_items(evs, st, st.stack.len() as int, Seq::empty())
}

/// Reads the list of `EnumeratedValue` that the open element holds.
pub fn decode_enumerated_value_list(it: &mut XmlIter) -> (r: Result<Vec<EnumeratedValue>, ()>)
    requires
        old(it).wf(),
    ensures
        final(it).wf(),
        final(it).evs() == old(it).evs(),
        match spec_enumerated_value_list(old(it).evs(), old(it).st()) {
            Ok((v, s)) => r matches Ok(x) && enumerated_value_list_view(x@) == v && final(it).st() == s,
            Err(_) => r is Err,
        },
{
    let ghost evs = it.evs();
    let depth = it.depth();
    let mut out: Vec<EnumeratedValue> = Vec::new();
    assert(enumerated_value_list_view(out@) =~= Seq::<EnumeratedValueV>::empty());
    loop
        invariant
            it.wf(),
            it.evs() == evs,
            evs == old(it).evs(),
            depth == old(it).st().stack.len(),
            spec_enumerated_value_list(evs, old(it).st()) == spec_enumerated_value_items(evs, it.st(), depth as int, enumerated_value_list_view(out@)),
        decreases evs.len() - it.st().pos,
    {
        let p0 = it.pos();
        match it.next_child(depth) {
            Err(()) => {
                return Err(());
            },
            Ok(None) => {
                return Ok(out);
            },
            Ok(Some(_)) => {},
        }
        match decode_enumerated_value(it) {
            Ok(v) => {
                let ghost prev = out@;
                out.push(v);
                proof {
                    assert(enumerated_value_list_view(out@) =~= enumerated_value_list_view(prev).push(v@));
                }
            },
            Err(()) => {
                return Err(());
            },
        }
        if it.pos() <= p0 {
            return Err(());
        }
    }
}

/// The children of the open element from `st` on, each read as a `Register`,
/// after `acc`. A read that does not move the walk on is refused.
pub open spec fn spec_register_items(evs: Seq<XmlEventV>, st: St, depth: int, acc: Seq<RegisterV>) -> Result<(Seq<RegisterV>, St), ()>
    decreases evs.len() - st.pos,
{
    match child_loop(evs, st, depth) {
        Err(_) => Err(()),
        Ok((None, s)) => Ok((acc, s)),
        Ok((Some(_), s)) => match spec_register(evs, s) {
            Err(_) => Err(()),
            Ok((v, s2)) => if st.pos < s2.pos <= evs.len() {
                spec_register_items(evs, s2, depth, acc.push(v))
            } else {
                Err(())
            },
        },
    }
}

/// The list of `Register` that the open element holds.
pub open spec fn spec_register_list(evs: Seq<XmlEventV>, st: St) -> Result<(Seq<RegisterV>, St), ()> {
    spec_register_items(evs, st, st.stack.len() as int, Seq::empty())
}

/// Reads the list of `Register` that the open element holds.
pub fn decode_register_list(it: &mut XmlIter) -> (r: Result<Vec<Register>, ()>)
    requires
        old(it).wf(),
    ensures
        final(it).wf(),
        final(it).evs() == old(it).evs(),
        match spec_register_list(old(it).evs(), old(it).st()) {
            Ok((v, s)) => r matches Ok(x) && register_list_view(x@) == v && final(it).st() == s,
            Err(_) => r is Err,
        },
{
    let ghost evs = it.evs();
    let depth = it.depth();
    let mut out: Vec<Register> = Vec::new();
    assert(register_list_view(out@) =~= Seq::<RegisterV>::empty());
    loop
        invariant
            it.wf(),
            it.evs() == evs,
            evs == old(it).evs(),
            depth == old(it).st().stack.len(),
            spec_register_list(evs, old(it).st()) == spec_register_items(evs, it.st(), depth as int, register_list_view(out@)),
        decreases evs.len() - it.st().pos,
    {
        let p0 = it.pos();
        match it.next_child(depth) {
            Err(()) => {
                return Err(());
            },
            Ok(None) => {
                return Ok(out);
            },
            Ok(Some(_)) => {},
        }
        match decode_register(it) {
            Ok(v) => {
                let ghost prev = out@;
                out.push(v);
                proof {
                    assert(register_list_view(out@) =~= register_list_view(prev).push(v@));
                }
            },
            Err(()) => {
                return Err(());
            },
        }
        if it.pos() <= p0 {
            return Err(());
        }
    }
}

/// A register entry read from the open element by its tag name: a
/// `register` or a `cluster`; `Err` for any other tag.
pub open spec fn spec_regs(evs: Seq<XmlEventV>, st: St) -> Result<(RegsV, St), ()> {
    let tag = ev_name(evs[st.stack.last()]);
    if tag == "register"@ {
        match spec_register(evs, st) {
            Ok((v, s)) => Ok((RegsV::register(v), s)),
            Err(_) => Err(()),
        }
    } else if tag == "cluster"@ {
        match spec_cluster(evs, st) {
            Ok((v, s)) => Ok((RegsV::cluster(v), s)),
            Err(_) => Err(()),
        }
    } else {
        Err(())
    }
}

/// Reads a register entry from the open element.
pub fn decode_regs(it: &mut XmlIter) -> (r: Result<Regs, ()>)
    requires
        old(it).wf(),
        old(it).st().stack.len() > 0,
    ensures
        final(it).wf(),
        final(it).evs() == old(it).evs(),
        match spec_regs(old(it).evs(), old(it).st()) {
            Ok((v, s)) => r matches Ok(x) && x@ == v && final(it).st() == s,
            Err(_) => r is Err,
        },
{
    let tag = it.tag_name();
    if str_eq(tag, "register") {
        match decode_register(it) {
            Ok(v) => Ok(Regs::register(v)),
            Err(()) => Err(()),
        }
    } else if str_eq(tag, "cluster") {
        match decode_cluster(it) {
            Ok(v) => Ok(Regs::cluster(v)),
            Err(()) => Err(()),
        }
    } else {
        Err(())
    }
}

/// Reading the children of a cluster element never drops a register read
/// before: the registers of the result begin with those of `obj`.
pub proof fn lemma_cluster_keeps_registers(evs: Seq<XmlEventV>, st: St, depth: int, obj: ClusterV)
    ensures
        spec_cluster_fields(evs, st, depth, obj) matches Ok((c, _)) ==> obj.registers.len() <= c.registers.len()
            && c.registers.take(obj.registers.len() as int) == obj.registers,
    decreases evs.len() - st.pos,
{
    if let Ok((Some(_), s)) = child_loop(evs, st, depth) {
        let tag = ev_name(evs[s.stack.last()]);
        let next: Option<(ClusterV, St)> = if tag == "name"@ {
            match spec_text(evs, s) {
                Ok((v, s2)) => Some((ClusterV { name: v, ..obj }, s2)),
                Err(_) => None,
            }
        } else if tag == "register"@ {
            match spec_register(evs, s) {
                Ok((v, s2)) => Some((ClusterV { registers: obj.registers.push(v), ..obj }, s2)),
                Err(_) => None,
            }
        } else {
            match spec_skip(evs, s) {
                Ok(s2) => Some((obj, s2)),
                Err(_) => None,
            }
        };
        if let Some((o2, s2)) = next {
            if st.pos < s2.pos <= evs.len() {
                lemma_cluster_keeps_registers(evs, s2, depth, o2);
                if let Ok((c, _)) = spec_cluster_fields(evs, s2, depth, o2) {
                    assert(o2.registers.take(obj.registers.len() as int) =~= obj.registers);
                    assert(c.registers.take(obj.registers.len() as int) =~= obj.registers);
                }
            }
        }
    }
}

/// A `register` child of a cluster element that reads as `v` puts `v` in
/// the cluster right after the registers read before it: one register per
/// `register` child, in the order of the document.
pub proof fn lemma_cluster_register_child(
    evs: Seq<XmlEventV>,
    st: St,
    depth: int,
    obj: ClusterV,
    s: St,
    v: RegisterV,
    s2: St,
)
    requires
        child_loop(evs, st, depth) matches Ok((Some(_), s0)) && s0 == s,
        ev_name(evs[s.stack.last()]) == "register"@,
        spec_register(evs, s) == Ok::<(RegisterV, St), ()>((v, s2)),
        st.pos < s2.pos <= evs.len(),
    ensures
        spec_cluster_fields(evs, st, depth, obj) matches Ok((c, _)) ==> obj.registers.len() < c.registers.len()
            && c.registers.take(obj.registers.len() as int + 1) == obj.registers.push(v),
{
    reveal_strlit("name");
    reveal_strlit("register");
    assert("register"@ != "name"@) by {
        assert("register"@.len() != "name"@.len());
    }
    let o2 = ClusterV { registers: obj.registers.push(v), ..obj };
    lemma_cluster_keeps_registers(evs, s2, depth, o2);
    assert(spec_cluster_fields(evs, st, depth, obj) == spec_cluster_fields(evs, s2, depth, o2));
}

/// The registers of a cluster read from `st` on come after those read
/// before, whatever those are: reading with `pre` put before the registers
/// of `obj` gives the same result with `pre` put before its registers.
pub proof fn lemma_cluster_registers_after(
    evs: Seq<XmlEventV>,
    st: St,
    depth: int,
    obj: ClusterV,
    pre: Seq<RegisterV>,
)
    ensures
        match (
            spec_cluster_fields(evs, st, depth, obj),
            spec_cluster_fields(evs, st, depth, ClusterV { registers: pre + obj.registers, ..obj }),
        ) {
            (Ok((c, e)), Ok((c2, e2))) => e2 == e && c2 == ClusterV { registers: pre + c.registers, ..c },
            (Err(_), Err(_)) => true,
            _ => false,
        },
    decreases evs.len() - st.pos,
{
    let obj2 = ClusterV { registers: pre + obj.registers, ..obj };
    if let Ok((Some(_), s)) = child_loop(evs, st, depth) {
        let tag = ev_name(evs[s.stack.last()]);
        if tag == "name"@ {
            if let Ok((v, s2)) = spec_text(evs, s) {
                if st.pos < s2.pos <= evs.len() {
                    lemma_cluster_registers_after(evs, s2, depth, ClusterV { name: v, ..obj }, pre);
                    assert(ClusterV { name: v, ..obj2 } == ClusterV { registers: pre + obj.registers, ..ClusterV { name: v, ..obj } });
                }
            }
        } else if tag == "register"@ {
            if let Ok((v, s2)) = spec_register(evs, s) {
                if st.pos < s2.pos <= evs.len() {
                    let o = ClusterV { registers: obj.registers.push(v), ..obj };
                    lemma_cluster_registers_after(evs, s2, depth, o, pre);
                    assert((pre + obj.registers).push(v) =~= pre + obj.registers.push(v));
                    assert(ClusterV { registers: obj2.registers.push(v), ..obj2 } == ClusterV { registers: pre + o.registers, ..o });
                }
            }
        } else {
            if let Ok(s2) = spec_skip(evs, s) {
                if st.pos < s2.pos <= evs.len() {
                    lemma_cluster_registers_after(evs, s2, depth, obj, pre);
                }
            }
        }
    } else if let Ok((None, s)) = child_loop(evs, st, depth) {
    }
}

/// A `register` child of a cluster element that reads as `v` adds exactly
/// `v` to the cluster, after the registers read before it and before those
/// of the children that follow it.
pub proof fn lemma_cluster_register_adds_one(
    evs: Seq<XmlEventV>,
    st: St,
    depth: int,
    obj: ClusterV,
    s: St,
    v: RegisterV,
    s2: St,
)
    requires
        child_loop(evs, st, depth) matches Ok((Some(_), s0)) && s0 == s,
        ev_name(evs[s.stack.last()]) == "register"@,
        spec_register(evs, s) == Ok::<(RegisterV, St), ()>((v, s2)),
        st.pos < s2.pos <= evs.len(),
    ensures
        match (
            spec_cluster_fields(evs, st, depth, obj),
            spec_cluster_fields(evs, s2, depth, ClusterV { registers: Seq::empty(), ..obj }),
        ) {
            (Ok((c, e)), Ok((rest, e2))) => e == e2 && c.registers == obj.registers.push(v) + rest.registers,
            (Err(_), Err(_)) => true,
            _ => false,
        },
{
    reveal_strlit("name");
    reveal_strlit("register");
    assert("register"@ != "name"@) by {
        assert("register"@.len() != "name"@.len());
    }
    let base = ClusterV { registers: Seq::empty(), ..obj };
    let pre = obj.registers.push(v);
    lemma_cluster_registers_after(evs, s2, depth, base, pre);
    assert(pre + base.registers =~= pre);
    assert(ClusterV { registers: pre + base.registers, ..base } == ClusterV { registers: obj.registers.push(v), ..obj });
    assert(spec_cluster_fields(evs, st, depth, obj) == spec_cluster_fields(evs, s2, depth, ClusterV { registers: obj.registers.push(v), ..obj }));
}

} // verus!
