//! Reading the SVD device description from the events of its XML document:
//! each element's children by tag name into the field of that name, a list
//! field from the children of its tag, numbers in decimal or in hex after
//! `0x`, and the `derivedFrom` attribute of a peripheral.

#![allow(non_snake_case)]

use vstd::prelude::*;
use crate::fromxml::{XmlEvent, XmlEventV, XmlIter, St, ev_name, child_loop, events_view, ends_match, first_start,
    check_nesting, xml_events, xml_events_of, attrs_view};
use crate::text::{str_eq, read_num_u32, read_num_usize, spec_parse_num, spec_parse_num_usize};
use crate::ioregs::decode::{spec_text, spec_skip, read_text};
use crate::device::{
    Device, DeviceV, empty_device,
    Peripherals, PeripheralsV, empty_peripherals,
    Peripheral, PeripheralV, empty_peripheral,
    Registers, RegistersV, empty_registers,
    Cluster, ClusterV, empty_cluster,
    Interrupt, InterruptV, empty_interrupt,
    Register, RegisterV, empty_register,
    Fields, FieldsV, empty_fields,
    Field, FieldV, empty_field,
    EnumeratedValues, EnumeratedValuesV, empty_enumerated_values,
    EnumeratedValue, EnumeratedValueV, empty_enumerated_value,
    CPU, CPUV, empty_cpu,
    cluster_list_view,
    enumerated_value_list_view,
    field_list_view,
    peripheral_list_view,
    register_list_view,
};

verus! {

/// The text of the open element read as a `u32` (see `spec_parse_num`).
pub open spec fn spec_u32(evs: Seq<XmlEventV>, st: St) -> Result<(u32, St), ()> {
    match spec_text(evs, st) {
        Ok((t, s)) => match spec_parse_num(t) {
            Some(n) => Ok((n, s)),
            None => Err(()),
        },
        Err(_) => Err(()),
    }
}

/// The text of the open element read as a `usize` (see `spec_parse_num_usize`).
pub open spec fn spec_usize(evs: Seq<XmlEventV>, st: St) -> Result<(usize, St), ()> {
    match spec_text(evs, st) {
        Ok((t, s)) => match spec_parse_num_usize(t) {
            Some(n) => Ok((n, s)),
            None => Err(()),
        },
        Err(_) => Err(()),
    }
}

/// Reads the text of the open element as a `u32`.
pub fn read_u32(it: &mut XmlIter) -> (r: Result<u32, ()>)
    requires
        old(it).wf(),
    ensures
        final(it).wf(),
        final(it).evs() == old(it).evs(),
        match spec_u32(old(it).evs(), old(it).st()) {
            Ok((n, s)) => r == Ok::<u32, ()>(n) && final(it).st() == s,
            Err(_) => r is Err,
        },
{
    match it.inner_text() {
        Ok(t) => match read_num_u32(t.as_str()) {
            Some(n) => Ok(n),
            None => Err(()),
        },
        Err(()) => Err(()),
    }
}

/// Reads the text of the open element as a `usize`.
pub fn read_usize(it: &mut XmlIter) -> (r: Result<usize, ()>)
    requires
        old(it).wf(),
    ensures
        final(it).wf(),
        final(it).evs() == old(it).evs(),
        match spec_usize(old(it).evs(), old(it).st()) {
            Ok((n, s)) => r == Ok::<usize, ()>(n) && final(it).st() == s,
            Err(_) => r is Err,
        },
{
    match it.inner_text() {
        Ok(t) => match read_num_usize(t.as_str()) {
            Some(n) => Ok(n),
            None => Err(()),
        },
        Err(()) => Err(()),
    }
}

/// The value of the first attribute named `name`.
pub open spec fn find_attr(attrs: Seq<(Seq<char>, Seq<char>)>, name: Seq<char>) -> Option<Seq<char>>
    decreases attrs.len(),
{
    if attrs.len() == 0 {
        None
    } else if attrs[0].0 == name {
        Some(attrs[0].1)
    } else {
        find_attr(attrs.drop_first(), name)
    }
}

/// The attributes of the start event of the innermost open element.
pub open spec fn open_attrs(evs: Seq<XmlEventV>, st: St) -> Seq<(Seq<char>, Seq<char>)> {
    match evs[st.stack.last()] {
        XmlEventV::StartElement(_, a) => a,
        _ => Seq::empty(),
    }
}

/// The value of the first attribute named `name` of the innermost open element.
pub fn attribute(it: &XmlIter, name: &str) -> (r: Option<String>)
    requires
        it.wf(),
        it.st().stack.len() > 0,
    ensures
        match r {
            Some(v) => find_attr(open_attrs(it.evs(), it.st()), name@) == Some(v@),
            None => find_attr(open_attrs(it.evs(), it.st()), name@) is None,
        },
{
    let attrs = it.attributes();
    let ghost a = attrs_view(attrs@);
    assert(a == open_attrs(it.evs(), it.st()));
    let mut i: usize = 0;
    assert(a.skip(0) =~= a);
    while i < attrs.len()
        invariant
            i <= attrs@.len(),
            a == attrs_view(attrs@),
            a == open_attrs(it.evs(), it.st()),
            find_attr(a, name@) == find_attr(a.skip(i as int), name@),
        decreases attrs@.len() - i,
    {
        let ghost rest = a.skip(i as int);
        assert(rest[0] == (attrs@[i as int].0@, attrs@[i as int].1@));
        if str_eq(attrs[i].0.as_str(), name) {
            let v = attrs[i].1.clone();
            assert(rest.len() > 0 && rest[0].0 == name@);
            assert(find_attr(rest, name@) == Some(rest[0].1));
            return Some(v);
        }
        assert(rest.drop_first() =~= a.skip(i + 1));
        i = i + 1;
    }
    assert(a.skip(i as int) =~= Seq::<(Seq<char>, Seq<char>)>::empty());
    None
}

/// The children of the open element from `st` on, each read into the
/// field of a `Device` that its tag names and any other skipped, after `obj`.
/// A read that does not move the walk on is refused.
pub open spec fn spec_device_fields(evs: Seq<XmlEventV>, st: St, depth: int, obj: DeviceV) -> Result<(DeviceV, St), ()>
    decreases evs.len() - st.pos,
{
    match child_loop(evs, st, depth) {
        Err(_) => Err(()),
        Ok((None, s)) => Ok((obj, s)),
        Ok((Some(_), s)) => {
            let tag = ev_name(evs[s.stack.last()]);
            let step = {
                if tag == "vendor"@ {
                    match spec_text(evs, s) {
                        Ok((v, s2)) => Ok((DeviceV { vendor: Some(v), ..obj }, s2)),
                        Err(_) => Err(()),
                    }
                } else if tag == "vendorID"@ {
                    match spec_text(evs, s) {
                        Ok((v, s2)) => Ok((DeviceV { vendorID: Some(v), ..obj }, s2)),
                        Err(_) => Err(()),
                    }
                } else if tag == "licenseText"@ {
                    match spec_text(evs, s) {
                        Ok((v, s2)) => Ok((DeviceV { licenseText: Some(v), ..obj }, s2)),
                        Err(_) => Err(()),
                    }
                } else if tag == "series"@ {
                    match spec_text(evs, s) {
                        Ok((v, s2)) => Ok((DeviceV { series: Some(v), ..obj }, s2)),
                        Err(_) => Err(()),
                    }
                } else if tag == "version"@ {
                    match spec_text(evs, s) {
                        Ok((v, s2)) => Ok((DeviceV { version: Some(v), ..obj }, s2)),
                        Err(_) => Err(()),
                    }
                } else if tag == "description"@ {
                    match spec_text(evs, s) {
                        Ok((v, s2)) => Ok((DeviceV { description: Some(v), ..obj }, s2)),
                        Err(_) => Err(()),
                    }
                } else if tag == "access"@ {
                    match spec_text(evs, s) {
                        Ok((v, s2)) => Ok((DeviceV { access: Some(v), ..obj }, s2)),
                        Err(_) => Err(()),
                    }
                } else if tag == "cpu"@ {
                    match spec_cpu(evs, s) {
                        Ok((v, s2)) => Ok((DeviceV { cpu: Some(v), ..obj }, s2)),
                        Err(_) => Err(()),
                    }
                } else if tag == "peripherals"@ {
                    match spec_peripherals(evs, s) {
                        Ok((v, s2)) => Ok((DeviceV { peripherals: Some(v), ..obj }, s2)),
                        Err(_) => Err(()),
                    }
                } else {
                    match spec_skip(evs, s) {
                        Ok(s2) => Ok((obj, s2)),
                        Err(_) => Err(()),
                    }
                }
            };
            match step {
                Err(_) => Err(()),
                Ok((o2, s2)) => if st.pos < s2.pos <= evs.len() {
                    spec_device_fields(evs, s2, depth, o2)
                } else {
                    Err(())
                },
            }
        },
    }
}

/// A `Device` read from the open element.
pub open spec fn spec_device(evs: Seq<XmlEventV>, st: St) -> Result<(DeviceV, St), ()> {
    spec_device_fields(evs, st, st.stack.len() as int, empty_device())
}

/// Reads a `Device` from the open element, up to its end.
pub fn decode_device(it: &mut XmlIter) -> (r: Result<Device, ()>)
    requires
        old(it).wf(),
    ensures
        final(it).wf(),
        final(it).evs() == old(it).evs(),
        match spec_device(old(it).evs(), old(it).st()) {
            Ok((v, s)) => r matches Ok(x) && x@ == v && final(it).st() == s,
            Err(_) => r is Err,
        },
{
    let ghost evs = it.evs();
    let depth = it.depth();
    let mut obj = Device::empty();
    assert(obj@ == empty_device());
    loop
        invariant
            it.wf(),
            it.evs() == evs,
            evs == old(it).evs(),
            depth == old(it).st().stack.len(),
            spec_device(evs, old(it).st()) == spec_device_fields(evs, it.st(), depth as int, obj@),
        decreases evs.len() - it.st().pos,
    {
        let p0 = it.pos();
        match it.next_child(depth) {
            Err(()) => {
                return Err(());
            },
            Ok(None) => {
                return Ok(obj);
            },
            Ok(Some(_)) => {
                let tag = it.tag_name();
                if str_eq(tag, "vendor") {
                    match read_text(it) {
                        Ok(v) => {
                            obj.vendor = Some(v);
                        },
                        Err(()) => {
                            return Err(());
                        },
                    }
                } else if str_eq(tag, "vendorID") {
                    match read_text(it) {
                        Ok(v) => {
                            obj.vendorID = Some(v);
                        },
                        Err(()) => {
                            return Err(());
                        },
                    }
                } else if str_eq(tag, "licenseText") {
                    match read_text(it) {
                        Ok(v) => {
                            obj.licenseText = Some(v);
                        },
                        Err(()) => {
                            return Err(());
                        },
                    }
                } else if str_eq(tag, "series") {
                    match read_text(it) {
                        Ok(v) => {
                            obj.series = Some(v);
                        },
                        Err(()) => {
                            return Err(());
                        },
                    }
                } else if str_eq(tag, "version") {
                    match read_text(it) {
                        Ok(v) => {
                            obj.version = Some(v);
                        },
                        Err(()) => {
                            return Err(());
                        },
                    }
                } else if str_eq(tag, "description") {
                    match read_text(it) {
                        Ok(v) => {
                            obj.description = Some(v);
                        },
                        Err(()) => {
                            return Err(());
                        },
                    }
                } else if str_eq(tag, "access") {
                    match read_text(it) {
                        Ok(v) => {
                            obj.access = Some(v);
                        },
                        Err(()) => {
                            return Err(());
                        },
                    }
                } else if str_eq(tag, "cpu") {
                    match decode_cpu(it) {
                        Ok(v) => {
                            obj.cpu = Some(v);
                        },
                        Err(()) => {
                            return Err(());
                        },
                    }
                } else if str_eq(tag, "peripherals") {
                    match decode_peripherals(it) {
                        Ok(v) => {
                            obj.peripherals = Some(v);
                        },
                        Err(()) => {
                            return Err(());
                        },
                    }
                } else {
                    match it.skip_node() {
                        Ok(()) => {},
                        Err(()) => {
                            return Err(());
                        },
                    }
                }
            },
        }
        if it.pos() <= p0 {
            return Err(());
        }
    }
}

/// The children of the open element from `st` on, each read into the
/// field of a `Peripherals` that its tag names and any other skipped, after `obj`.
/// A read that does not move the walk on is refused.
pub open spec fn spec_peripherals_fields(evs: Seq<XmlEventV>, st: St, depth: int, obj: PeripheralsV) -> Result<(PeripheralsV, St), ()>
    decreases evs.len() - st.pos,
{
    match child_loop(evs, st, depth) {
        Err(_) => Err(()),
        Ok((None, s)) => Ok((obj, s)),
        Ok((Some(_), s)) => {
            let tag = ev_name(evs[s.stack.last()]);
            let step = {
                if tag == "peripheral"@ {
                    match spec_peripheral(evs, s) {
                        Ok((v, s2)) => Ok((PeripheralsV { peripheral: obj.peripheral.push(v) }, s2)),
                        Err(_) => Err(()),
                    }
                } else {
                    match spec_skip(evs, s) {
                        Ok(s2) => Ok((obj, s2)),
                        Err(_) => Err(()),
                    }
                }
            };
            match step {
                Err(_) => Err(()),
                Ok((o2, s2)) => if st.pos < s2.pos <= evs.len() {
                    spec_peripherals_fields(evs, s2, depth, o2)
                } else {
                    Err(())
                },
            }
        },
    }
}

/// A `Peripherals` read from the open element.
pub open spec fn spec_peripherals(evs: Seq<XmlEventV>, st: St) -> Result<(PeripheralsV, St), ()> {
    spec_peripherals_fields(evs, st, st.stack.len() as int, empty_peripherals())
}

/// Reads a `Peripherals` from the open element, up to its end.
pub fn decode_peripherals(it: &mut XmlIter) -> (r: Result<Peripherals, ()>)
    requires
        old(it).wf(),
    ensures
        final(it).wf(),
        final(it).evs() == old(it).evs(),
        match spec_peripherals(old(it).evs(), old(it).st()) {
            Ok((v, s)) => r matches Ok(x) && x@ == v && final(it).st() == s,
            Err(_) => r is Err,
        },
{
    let ghost evs = it.evs();
    let depth = it.depth();
    let mut obj = Peripherals::empty();
    assert(obj@ == empty_peripherals());
    loop
        invariant
            it.wf(),
            it.evs() == evs,
            evs == old(it).evs(),
            depth == old(it).st().stack.len(),
            spec_peripherals(evs, old(it).st()) == spec_peripherals_fields(evs, it.st(), depth as int, obj@),
        decreases evs.len() - it.st().pos,
    {
        let p0 = it.pos();
        match it.next_child(depth) {
            Err(()) => {
                return Err(());
            },
            Ok(None) => {
                return Ok(obj);
            },
            Ok(Some(_)) => {
                let tag = it.tag_name();
                if str_eq(tag, "peripheral") {
                    match decode_peripheral(it) {
                        Ok(v) => {
                            let ghost prev = obj.peripheral@;
                            obj.peripheral.push(v);
                            proof {
                                assert(peripheral_list_view(obj.peripheral@) =~= peripheral_list_view(prev).push(v@));
                            }
                        },
                        Err(()) => {
                            return Err(());
                        },
                    }
                } else {
                    match it.skip_node() {
                        Ok(()) => {},
                        Err(()) => {
                            return Err(());
                        },
                    }
                }
            },
        }
        if it.pos() <= p0 {
            return Err(());
        }
    }
}

/// The children of the open element from `st` on, each read into the
/// field of a `Peripheral` that its tag names and any other skipped, after `obj`.
/// A read that does not move the walk on is refused.
pub open spec fn spec_peripheral_fields(evs: Seq<XmlEventV>, st: St, depth: int, obj: PeripheralV) -> Result<(PeripheralV, St), ()>
    decreases evs.len() - st.pos,
{
    match child_loop(evs, st, depth) {
        Err(_) => Err(()),
        Ok((None, s)) => Ok((obj, s)),
        Ok((Some(_), s)) => {
            let tag = ev_name(evs[s.stack.last()]);
            let step = {
                if tag == "name"@ {
                    match spec_text(evs, s) {
                        Ok((v, s2)) => Ok((PeripheralV { name: v, ..obj }, s2)),
                        Err(_) => Err(()),
                    }
                } else if tag == "baseAddress"@ {
                    match spec_u32(evs, s) {
                        Ok((v, s2)) => Ok((PeripheralV { baseAddress: v, ..obj }, s2)),
                        Err(_) => Err(()),
                    }
                } else if tag == "description"@ {
                    match spec_text(evs, s) {
                        Ok((v, s2)) => Ok((PeripheralV { description: Some(v), ..obj }, s2)),
                        Err(_) => Err(()),
                    }
                } else if tag == "version"@ {
                    match spec_text(evs, s) {
                        Ok((v, s2)) => Ok((PeripheralV { version: Some(v), ..obj }, s2)),
                        Err(_) => Err(()),
                    }
                } else if tag == "groupName"@ {
                    match spec_text(evs, s) {
                        Ok((v, s2)) => Ok((PeripheralV { groupName: Some(v), ..obj }, s2)),
                        Err(_) => Err(()),
                    }
                } else if tag == "prependToName"@ {
                    match spec_text(evs, s) {
                        Ok((v, s2)) => Ok((PeripheralV { prependToName: Some(v), ..obj }, s2)),
                        Err(_) => Err(()),
                    }
                } else if tag == "access"@ {
                    match spec_text(evs, s) {
                        Ok((v, s2)) => Ok((PeripheralV { access: Some(v), ..obj }, s2)),
                        Err(_) => Err(()),
                    }
                } else if tag == "interrupt"@ {
                    match spec_interrupt(evs, s) {
                        Ok((v, s2)) => Ok((PeripheralV { interrupt: Some(v), ..obj }, s2)),
                        Err(_) => Err(()),
                    }
                } else if tag == "registers"@ {
                    match spec_registers(evs, s) {
                        Ok((v, s2)) => Ok((PeripheralV { registers: Some(v), ..obj }, s2)),
                        Err(_) => Err(()),
                    }
                } else {
                    match spec_skip(evs, s) {
                        Ok(s2) => Ok((obj, s2)),
                        Err(_) => Err(()),
                    }
                }
            };
            match step {
                Err(_) => Err(()),
                Ok((o2, s2)) => if st.pos < s2.pos <= evs.len() {
                    spec_peripheral_fields(evs, s2, depth, o2)
                } else {
                    Err(())
                },
            }
        },
    }
}

/// A `Peripheral` read from the open element.
pub open spec fn spec_peripheral(evs: Seq<XmlEventV>, st: St) -> Result<(PeripheralV, St), ()> {
    spec_peripheral_fields(evs, st, st.stack.len() as int, PeripheralV { derivedFrom: find_attr(open_attrs(evs, st), "derivedFrom"@), ..empty_peripheral() })
}

/// Reads a `Peripheral` from the open element, up to its end.
pub fn decode_peripheral(it: &mut XmlIter) -> (r: Result<Peripheral, ()>)
    requires
        old(it).wf(),
        old(it).st().stack.len() > 0,
    ensures
        final(it).wf(),
        final(it).evs() == old(it).evs(),
        match spec_peripheral(old(it).evs(), old(it).st()) {
            Ok((v, s)) => r matches Ok(x) && x@ == v && final(it).st() == s,
            Err(_) => r is Err,
        },
{
    let ghost evs = it.evs();
    let depth = it.depth();
    let mut obj = Peripheral::empty();
    obj.derivedFrom = attribute(it, "derivedFrom");
    assert(obj@ == PeripheralV { derivedFrom: find_attr(open_attrs(old(it).evs(), old(it).st()), "derivedFrom"@), ..empty_peripheral() });
    loop
        invariant
            it.wf(),
            it.evs() == evs,
            evs == old(it).evs(),
            depth == old(it).st().stack.len(),
            spec_peripheral(evs, old(it).st()) == spec_peripheral_fields(evs, it.st(), depth as int, obj@),
        decreases evs.len() - it.st().pos,
    {
        let p0 = it.pos();
        match it.next_child(depth) {
            Err(()) => {
                return Err(());
            },
            Ok(None) => {
                return Ok(obj);
            },
            Ok(Some(_)) => {
                let tag = it.tag_name();
                if str_eq(tag, "name") {
                    match read_text(it) {
                        Ok(v) => {
                            obj.name = v;
                        },
                        Err(()) => {
                            return Err(());
                        },
                    }
                } else if str_eq(tag, "baseAddress") {
                    match read_u32(it) {
                        Ok(v) => {
                            obj.baseAddress = v;
                        },
                        Err(()) => {
                            return Err(());
                        },
                    }
                } else if str_eq(tag, "description") {
                    match read_text(it) {
                        Ok(v) => {
                            obj.description = Some(v);
                        },
                        Err(()) => {
                            return Err(());
                        },
                    }
                } else if str_eq(tag, "version") {
                    match read_text(it) {
                        Ok(v) => {
                            obj.version = Some(v);
                        },
                        Err(()) => {
                            return Err(());
                        },
                    }
                } else if str_eq(tag, "groupName") {
                    match read_text(it) {
                        Ok(v) => {
                            obj.groupName = Some(v);
                        },
                        Err(()) => {
                            return Err(());
                        },
                    }
                } else if str_eq(tag, "prependToName") {
                    match read_text(it) {
                        Ok(v) => {
                            obj.prependToName = Some(v);
                        },
                        Err(()) => {
                            return Err(());
                        },
                    }
                } else if str_eq(tag, "access") {
                    match read_text(it) {
                        Ok(v) => {
                            obj.access = Some(v);
                        },
                        Err(()) => {
                            return Err(());
                        },
                    }
                } else if str_eq(tag, "interrupt") {
                    match decode_interrupt(it) {
                        Ok(v) => {
                            obj.interrupt = Some(v);
                        },
                        Err(()) => {
                            return Err(());
                        },
                    }
                } else if str_eq(tag, "registers") {
                    match decode_registers(it) {
                        Ok(v) => {
                            obj.registers = Some(v);
                        },
                        Err(()) => {
                            return Err(());
                        },
                    }
                } else {
                    match it.skip_node() {
                        Ok(()) => {},
                        Err(()) => {
                            return Err(());
                        },
                    }
                }
            },
        }
        if it.pos() <= p0 {
            return Err(());
        }
    }
}

/// The children of the open element from `st` on, each read into the
/// field of a `Registers` that its tag names and any other skipped, after `obj`.
/// A read that does not move the walk on is refused.
pub open spec fn spec_registers_fields(evs: Seq<XmlEventV>, st: St, depth: int, obj: RegistersV) -> Result<(RegistersV, St), ()>
    decreases evs.len() - st.pos,
{
    match child_loop(evs, st, depth) {
        Err(_) => Err(()),
        Ok((None, s)) => Ok((obj, s)),
        Ok((Some(_), s)) => {
            let tag = ev_name(evs[s.stack.last()]);
            let step = {
                if tag == "register"@ {
                    match spec_register(evs, s) {
                        Ok((v, s2)) => Ok((RegistersV { register: obj.register.push(v), ..obj }, s2)),
                        Err(_) => Err(()),
                    }
                } else if tag == "cluster"@ {
                    match spec_cluster(evs, s) {
                        Ok((v, s2)) => Ok((RegistersV { cluster: obj.cluster.push(v), ..obj }, s2)),
                        Err(_) => Err(()),
                    }
                } else {
                    match spec_skip(evs, s) {
                        Ok(s2) => Ok((obj, s2)),
                        Err(_) => Err(()),
                    }
                }
            };
            match step {
                Err(_) => Err(()),
                Ok((o2, s2)) => if st.pos < s2.pos <= evs.len() {
                    spec_registers_fields(evs, s2, depth, o2)
                } else {
                    Err(())
                },
            }
        },
    }
}

/// A `Registers` read from the open element.
pub open spec fn spec_registers(evs: Seq<XmlEventV>, st: St) -> Result<(RegistersV, St), ()> {
    spec_registers_fields(evs, st, st.stack.len() as int, empty_registers())
}

/// Reads a `Registers` from the open element, up to its end.
pub fn decode_registers(it: &mut XmlIter) -> (r: Result<Registers, ()>)
    requires
        old(it).wf(),
    ensures
        final(it).wf(),
        final(it).evs() == old(it).evs(),
        match spec_registers(old(it).evs(), old(it).st()) {
            Ok((v, s)) => r matches Ok(x) && x@ == v && final(it).st() == s,
            Err(_) => r is Err,
        },
{
    let ghost evs = it.evs();
    let depth = it.depth();
    let mut obj = Registers::empty();
    assert(obj@ == empty_registers());
    loop
        invariant
            it.wf(),
            it.evs() == evs,
            evs == old(it).evs(),
            depth == old(it).st().stack.len(),
            spec_registers(evs, old(it).st()) == spec_registers_fields(evs, it.st(), depth as int, obj@),
        decreases evs.len() - it.st().pos,
    {
        let p0 = it.pos();
        match it.next_child(depth) {
            Err(()) => {
                return Err(());
            },
            Ok(None) => {
                return Ok(obj);
            },
            Ok(Some(_)) => {
                let tag = it.tag_name();
                if str_eq(tag, "register") {
                    match decode_register(it) {
                        Ok(v) => {
                            let ghost prev = obj.register@;
                            obj.register.push(v);
                            proof {
                                assert(register_list_view(obj.register@) =~= register_list_view(prev).push(v@));
                            }
                        },
                        Err(()) => {
                            return Err(());
                        },
                    }
                } else if str_eq(tag, "cluster") {
                    match decode_cluster(it) {
                        Ok(v) => {
                            let ghost prev = obj.cluster@;
                            obj.cluster.push(v);
                            proof {
                                assert(cluster_list_view(obj.cluster@) =~= cluster_list_view(prev).push(v@));
                            }
                        },
                        Err(()) => {
                            return Err(());
                        },
                    }
                } else {
                    match it.skip_node() {
                        Ok(()) => {},
                        Err(()) => {
                            return Err(());
                        },
                    }
                }
            },
        }
        if it.pos() <= p0 {
            return Err(());
        }
    }
}

/// The children of the open element from `st` on, each read into the
/// field of a `Cluster` that its tag names and any other skipped, after `obj`.
/// A read that does not move the walk on is refused.
pub open spec fn spec_cluster_fields(evs: Seq<XmlEventV>, st: St, depth: int, obj: ClusterV) -> Result<(ClusterV, St), ()>
    decreases evs.len() - st.pos,
{
    match child_loop(evs, st, depth) {
        Err(_) => Err(()),
        Ok((None, s)) => Ok((obj, s)),
        Ok((Some(_), s)) => {
            let tag = ev_name(evs[s.stack.last()]);
            let step = {
                if tag == "name"@ {
                    match spec_text(evs, s) {
                        Ok((v, s2)) => Ok((ClusterV { name: v, ..obj }, s2)),
                        Err(_) => Err(()),
                    }
                } else if tag == "register"@ {
                    match spec_register(evs, s) {
                        Ok((v, s2)) => Ok((ClusterV { register: obj.register.push(v), ..obj }, s2)),
                        Err(_) => Err(()),
                    }
                } else {
                    match spec_skip(evs, s) {
                        Ok(s2) => Ok((obj, s2)),
                        Err(_) => Err(()),
                    }
                }
            };
            match step {
                Err(_) => Err(()),
                Ok((o2, s2)) => if st.pos < s2.pos <= evs.len() {
                    spec_cluster_fields(evs, s2, depth, o2)
                } else {
                    Err(())
                },
            }
        },
    }
}

/// A `Cluster` read from the open element.
pub open spec fn spec_cluster(evs: Seq<XmlEventV>, st: St) -> Result<(ClusterV, St), ()> {
    spec_cluster_fields(evs, st, st.stack.len() as int, empty_cluster())
}

/// Reads a `Cluster` from the open element, up to its end.
pub fn decode_cluster(it: &mut XmlIter) -> (r: Result<Cluster, ()>)
    requires
        old(it).wf(),
    ensures
        final(it).wf(),
        final(it).evs() == old(it).evs(),
        match spec_cluster(old(it).evs(), old(it).st()) {
            Ok((v, s)) => r matches Ok(x) && x@ == v && final(it).st() == s,
            Err(_) => r is Err,
        },
{
    let ghost evs = it.evs();
    let depth = it.depth();
    let mut obj = Cluster::empty();
    assert(obj@ == empty_cluster());
    loop
        invariant
            it.wf(),
            it.evs() == evs,
            evs == old(it).evs(),
            depth == old(it).st().stack.len(),
            spec_cluster(evs, old(it).st()) == spec_cluster_fields(evs, it.st(), depth as int, obj@),
        decreases evs.len() - it.st().pos,
    {
        let p0 = it.pos();
        match it.next_child(depth) {
            Err(()) => {
                return Err(());
            },
            Ok(None) => {
                return Ok(obj);
            },
            Ok(Some(_)) => {
                let tag = it.tag_name();
                if str_eq(tag, "name") {
                    match read_text(it) {
                        Ok(v) => {
                            obj.name = v;
                        },
                        Err(()) => {
                            return Err(());
                        },
                    }
                } else if str_eq(tag, "register") {
                    match decode_register(it) {
                        Ok(v) => {
                            let ghost prev = obj.register@;
                            obj.register.push(v);
                            proof {
                                assert(register_list_view(obj.register@) =~= register_list_view(prev).push(v@));
                            }
                        },
                        Err(()) => {
                            return Err(());
                        },
                    }
                } else {
                    match it.skip_node() {
                        Ok(()) => {},
                        Err(()) => {
                            return Err(());
                        },
                    }
                }
            },
        }
        if it.pos() <= p0 {
            return Err(());
        }
    }
}

/// The children of the open element from `st` on, each read into the
/// field of a `Interrupt` that its tag names and any other skipped, after `obj`.
/// A read that does not move the walk on is refused.
pub open spec fn spec_interrupt_fields(evs: Seq<XmlEventV>, st: St, depth: int, obj: InterruptV) -> Result<(InterruptV, St), ()>
    decreases evs.len() - st.pos,
{
    match child_loop(evs, st, depth) {
        Err(_) => Err(()),
        Ok((None, s)) => Ok((obj, s)),
        Ok((Some(_), s)) => {
            let tag = ev_name(evs[s.stack.last()]);
            let step = {
                if tag == "name"@ {
                    match spec_text(evs, s) {
                        Ok((v, s2)) => Ok((InterruptV { name: v, ..obj }, s2)),
                        Err(_) => Err(()),
                    }
                } else if tag == "value"@ {
                    match spec_usize(evs, s) {
                        Ok((v, s2)) => Ok((InterruptV { value: v, ..obj }, s2)),
                        Err(_) => Err(()),
                    }
                } else {
                    match spec_skip(evs, s) {
                        Ok(s2) => Ok((obj, s2)),
                        Err(_) => Err(()),
                    }
                }
            };
            match step {
                Err(_) => Err(()),
                Ok((o2, s2)) => if st.pos < s2.pos <= evs.len() {
                    spec_interrupt_fields(evs, s2, depth, o2)
                } else {
                    Err(())
                },
            }
        },
    }
}

/// A `Interrupt` read from the open element.
pub open spec fn spec_interrupt(evs: Seq<XmlEventV>, st: St) -> Result<(InterruptV, St), ()> {
    spec_interrupt_fields(evs, st, st.stack.len() as int, empty_interrupt())
}

/// Reads a `Interrupt` from the open element, up to its end.
pub fn decode_interrupt(it: &mut XmlIter) -> (r: Result<Interrupt, ()>)
    requires
        old(it).wf(),
    ensures
        final(it).wf(),
        final(it).evs() == old(it).evs(),
        match spec_interrupt(old(it).evs(), old(it).st()) {
            Ok((v, s)) => r matches Ok(x) && x@ == v && final(it).st() == s,
            Err(_) => r is Err,
        },
{
    let ghost evs = it.evs();
    let depth = it.depth();
    let mut obj = Interrupt::empty();
    assert(obj@ == empty_interrupt());
    loop
        invariant
            it.wf(),
            it.evs() == evs,
            evs == old(it).evs(),
            depth == old(it).st().stack.len(),
            spec_interrupt(evs, old(it).st()) == spec_interrupt_fields(evs, it.st(), depth as int, obj@),
        decreases evs.len() - it.st().pos,
    {
        let p0 = it.pos();
        match it.next_child(depth) {
            Err(()) => {
                return Err(());
            },
            Ok(None) => {
                return Ok(obj);
            },
            Ok(Some(_)) => {
                let tag = it.tag_name();
                if str_eq(tag, "name") {
                    match read_text(it) {
                        Ok(v) => {
                            obj.name = v;
                        },
                        Err(()) => {
                            return Err(());
                        },
                    }
                } else if str_eq(tag, "value") {
                    match read_usize(it) {
                        Ok(v) => {
                            obj.value = v;
                        },
                        Err(()) => {
                            return Err(());
                        },
                    }
                } else {
                    match it.skip_node() {
                        Ok(()) => {},
                        Err(()) => {
                            return Err(());
                        },
                    }
                }
            },
        }
        if it.pos() <= p0 {
            return Err(());
        }
    }
}

/// The children of the open element from `st` on, each read into the
/// field of a `Register` that its tag names and any other skipped, after `obj`.
/// A read that does not move the walk on is refused.
pub open spec fn spec_register_fields(evs: Seq<XmlEventV>, st: St, depth: int, obj: RegisterV) -> Result<(RegisterV, St), ()>
    decreases evs.len() - st.pos,
{
    match child_loop(evs, st, depth) {
        Err(_) => Err(()),
        Ok((None, s)) => Ok((obj, s)),
        Ok((Some(_), s)) => {
            let tag = ev_name(evs[s.stack.last()]);
            let step = {
                if tag == "name"@ {
                    match spec_text(evs, s) {
                        Ok((v, s2)) => Ok((RegisterV { name: v, ..obj }, s2)),
                        Err(_) => Err(()),
                    }
                } else if tag == "addressOffset"@ {
                    match spec_u32(evs, s) {
                        Ok((v, s2)) => Ok((RegisterV { addressOffset: v, ..obj }, s2)),
                        Err(_) => Err(()),
                    }
                } else if tag == "dim"@ {
                    match spec_u32(evs, s) {
                        Ok((v, s2)) => Ok((RegisterV { dim: Some(v), ..obj }, s2)),
                        Err(_) => Err(()),
                    }
                } else if tag == "dimIncrement"@ {
                    match spec_u32(evs, s) {
                        Ok((v, s2)) => Ok((RegisterV { dimIncrement: Some(v), ..obj }, s2)),
                        Err(_) => Err(()),
                    }
                } else if tag == "description"@ {
                    match spec_text(evs, s) {
                        Ok((v, s2)) => Ok((RegisterV { description: Some(v), ..obj }, s2)),
                        Err(_) => Err(()),
                    }
                } else if tag == "size"@ {
                    match spec_usize(evs, s) {
                        Ok((v, s2)) => Ok((RegisterV { size: Some(v), ..obj }, s2)),
                        Err(_) => Err(()),
                    }
                } else if tag == "access"@ {
                    match spec_text(evs, s) {
                        Ok((v, s2)) => Ok((RegisterV { access: Some(v), ..obj }, s2)),
                        Err(_) => Err(()),
                    }
                } else if tag == "fields"@ {
                    match spec_fields(evs, s) {
                        Ok((v, s2)) => Ok((RegisterV { fields: Some(v), ..obj }, s2)),
                        Err(_) => Err(()),
                    }
                } else {
                    match spec_skip(evs, s) {
                        Ok(s2) => Ok((obj, s2)),
                        Err(_) => Err(()),
                    }
                }
            };
            match step {
                Err(_) => Err(()),
                Ok((o2, s2)) => if st.pos < s2.pos <= evs.len() {
                    spec_register_fields(evs, s2, depth, o2)
                } else {
                    Err(())
                },
            }
        },
    }
}

/// A `Register` read from the open element.
pub open spec fn spec_register(evs: Seq<XmlEventV>, st: St) -> Result<(RegisterV, St), ()> {
    spec_register_fields(evs, st, st.stack.len() as int, empty_register())
}

/// Reads a `Register` from the open element, up to its end.
pub fn decode_register(it: &mut XmlIter) -> (r: Result<Register, ()>)
    requires
        old(it).wf(),
    ensures
        final(it).wf(),
        final(it).evs() == old(it).evs(),
        match spec_register(old(it).evs(), old(it).st()) {
            Ok((v, s)) => r matches Ok(x) && x@ == v && final(it).st() == s,
            Err(_) => r is Err,
        },
{
    let ghost evs = it.evs();
    let depth = it.depth();
    let mut obj = Register::empty();
    assert(obj@ == empty_register());
    loop
        invariant
            it.wf(),
            it.evs() == evs,
            evs == old(it).evs(),
            depth == old(it).st().stack.len(),
            spec_register(evs, old(it).st()) == spec_register_fields(evs, it.st(), depth as int, obj@),
        decreases evs.len() - it.st().pos,
    {
        let p0 = it.pos();
        match it.next_child(depth) {
            Err(()) => {
                return Err(());
            },
            Ok(None) => {
                return Ok(obj);
            },
            Ok(Some(_)) => {
                let tag = it.tag_name();
                if str_eq(tag, "name") {
                    match read_text(it) {
                        Ok(v) => {
                            obj.name = v;
                        },
                        Err(()) => {
                            return Err(());
                        },
                    }
                } else if str_eq(tag, "addressOffset") {
                    match read_u32(it) {
                        Ok(v) => {
                            obj.addressOffset = v;
                        },
                        Err(()) => {
                            return Err(());
                        },
                    }
                } else if str_eq(tag, "dim") {
                    match read_u32(it) {
                        Ok(v) => {
                            obj.dim = Some(v);
                        },
                        Err(()) => {
                            return Err(());
                        },
                    }
                } else if str_eq(tag, "dimIncrement") {
                    match read_u32(it) {
                        Ok(v) => {
                            obj.dimIncrement = Some(v);
                        },
                        Err(()) => {
                            return Err(());
                        },
                    }
                } else if str_eq(tag, "description") {
                    match read_text(it) {
                        Ok(v) => {
                            obj.description = Some(v);
                        },
                        Err(()) => {
                            return Err(());
                        },
                    }
                } else if str_eq(tag, "size") {
                    match read_usize(it) {
                        Ok(v) => {
                            obj.size = Some(v);
                        },
                        Err(()) => {
                            return Err(());
                        },
                    }
                } else if str_eq(tag, "access") {
                    match read_text(it) {
                        Ok(v) => {
                            obj.access = Some(v);
                        },
                        Err(()) => {
                            return Err(());
                        },
                    }
                } else if str_eq(tag, "fields") {
                    match decode_fields(it) {
                        Ok(v) => {
                            obj.fields = Some(v);
                        },
                        Err(()) => {
                            return Err(());
                        },
                    }
                } else {
                    match it.skip_node() {
                        Ok(()) => {},
                        Err(()) => {
                            return Err(());
                        },
                    }
                }
            },
        }
        if it.pos() <= p0 {
            return Err(());
        }
    }
}

/// The children of the open element from `st` on, each read into the
/// field of a `Fields` that its tag names and any other skipped, after `obj`.
/// A read that does not move the walk on is refused.
pub open spec fn spec_fields_fields(evs: Seq<XmlEventV>, st: St, depth: int, obj: FieldsV) -> Result<(FieldsV, St), ()>
    decreases evs.len() - st.pos,
{
    match child_loop(evs, st, depth) {
        Err(_) => Err(()),
        Ok((None, s)) => Ok((obj, s)),
        Ok((Some(_), s)) => {
            let tag = ev_name(evs[s.stack.last()]);
            let step = {
                if tag == "field"@ {
                    match spec_field(evs, s) {
                        Ok((v, s2)) => Ok((FieldsV { field: obj.field.push(v) }, s2)),
                        Err(_) => Err(()),
                    }
                } else {
                    match spec_skip(evs, s) {
                        Ok(s2) => Ok((obj, s2)),
                        Err(_) => Err(()),
                    }
                }
            };
            match step {
                Err(_) => Err(()),
                Ok((o2, s2)) => if st.pos < s2.pos <= evs.len() {
                    spec_fields_fields(evs, s2, depth, o2)
                } else {
                    Err(())
                },
            }
        },
    }
}

/// A `Fields` read from the open element.
pub open spec fn spec_fields(evs: Seq<XmlEventV>, st: St) -> Result<(FieldsV, St), ()> {
    spec_fields_fields(evs, st, st.stack.len() as int, empty_fields())
}

/// Reads a `Fields` from the open element, up to its end.
pub fn decode_fields(it: &mut XmlIter) -> (r: Result<Fields, ()>)
    requires
        old(it).wf(),
    ensures
        final(it).wf(),
        final(it).evs() == old(it).evs(),
        match spec_fields(old(it).evs(), old(it).st()) {
            Ok((v, s)) => r matches Ok(x) && x@ == v && final(it).st() == s,
            Err(_) => r is Err,
        },
{
    let ghost evs = it.evs();
    let depth = it.depth();
    let mut obj = Fields::empty();
    assert(obj@ == empty_fields());
    loop
        invariant
            it.wf(),
            it.evs() == evs,
            evs == old(it).evs(),
            depth == old(it).st().stack.len(),
            spec_fields(evs, old(it).st()) == spec_fields_fields(evs, it.st(), depth as int, obj@),
        decreases evs.len() - it.st().pos,
    {
        let p0 = it.pos();
        match it.next_child(depth) {
            Err(()) => {
                return Err(());
            },
            Ok(None) => {
                return Ok(obj);
            },
            Ok(Some(_)) => {
                let tag = it.tag_name();
                if str_eq(tag, "field") {
                    match decode_field(it) {
                        Ok(v) => {
                            let ghost prev = obj.field@;
                            obj.field.push(v);
                            proof {
                                assert(field_list_view(obj.field@) =~= field_list_view(prev).push(v@));
                            }
                        },
                        Err(()) => {
                            return Err(());
                        },
                    }
                } else {
                    match it.skip_node() {
                        Ok(()) => {},
                        Err(()) => {
                            return Err(());
                        },
                    }
                }
            },
        }
        if it.pos() <= p0 {
            return Err(());
        }
    }
}

/// The children of the open element from `st` on, each read into the
/// field of a `Field` that its tag names and any other skipped, after `obj`.
/// A read that does not move the walk on is refused.
pub open spec fn spec_field_fields(evs: Seq<XmlEventV>, st: St, depth: int, obj: FieldV) -> Result<(FieldV, St), ()>
    decreases evs.len() - st.pos,
{
    match child_loop(evs, st, depth) {
        Err(_) => Err(()),
        Ok((None, s)) => Ok((obj, s)),
        Ok((Some(_), s)) => {
            let tag = ev_name(evs[s.stack.last()]);
            let step = {
                if tag == "name"@ {
                    match spec_text(evs, s) {
                        Ok((v, s2)) => Ok((FieldV { name: v, ..obj }, s2)),
                        Err(_) => Err(()),
                    }
                } else if tag == "bitOffset"@ {
                    match spec_usize(evs, s) {
                        Ok((v, s2)) => Ok((FieldV { bitOffset: v, ..obj }, s2)),
                        Err(_) => Err(()),
                    }
                } else if tag == "bitWidth"@ {
                    match spec_usize(evs, s) {
                        Ok((v, s2)) => Ok((FieldV { bitWidth: v, ..obj }, s2)),
                        Err(_) => Err(()),
                    }
                } else if tag == "description"@ {
                    match spec_text(evs, s) {
                        Ok((v, s2)) => Ok((FieldV { description: Some(v), ..obj }, s2)),
                        Err(_) => Err(()),
                    }
                } else if tag == "access"@ {
                    match spec_text(evs, s) {
                        Ok((v, s2)) => Ok((FieldV { access: Some(v), ..obj }, s2)),
                        Err(_) => Err(()),
                    }
                } else if tag == "enumeratedValues"@ {
                    match spec_enumerated_values(evs, s) {
                        Ok((v, s2)) => Ok((FieldV { enumeratedValues: Some(v), ..obj }, s2)),
                        Err(_) => Err(()),
                    }
                } else {
                    match spec_skip(evs, s) {
                        Ok(s2) => Ok((obj, s2)),
                        Err(_) => Err(()),
                    }
                }
            };
            match step {
                Err(_) => Err(()),
                Ok((o2, s2)) => if st.pos < s2.pos <= evs.len() {
                    spec_field_fields(evs, s2, depth, o2)
                } else {
                    Err(())
                },
            }
        },
    }
}

/// A `Field` read from the open element.
pub open spec fn spec_field(evs: Seq<XmlEventV>, st: St) -> Result<(FieldV, St), ()> {
    spec_field_fields(evs, st, st.stack.len() as int, empty_field())
}

/// Reads a `Field` from the open element, up to its end.
pub fn decode_field(it: &mut XmlIter) -> (r: Result<Field, ()>)
    requires
        old(it).wf(),
    ensures
        final(it).wf(),
        final(it).evs() == old(it).evs(),
        match spec_field(old(it).evs(), old(it).st()) {
            Ok((v, s)) => r matches Ok(x) && x@ == v && final(it).st() == s,
            Err(_) => r is Err,
        },
{
    let ghost evs = it.evs();
    let depth = it.depth();
    let mut obj = Field::empty();
    assert(obj@ == empty_field());
    loop
        invariant
            it.wf(),
            it.evs() == evs,
            evs == old(it).evs(),
            depth == old(it).st().stack.len(),
            spec_field(evs, old(it).st()) == spec_field_fields(evs, it.st(), depth as int, obj@),
        decreases evs.len() - it.st().pos,
    {
        let p0 = it.pos();
        match it.next_child(depth) {
            Err(()) => {
                return Err(());
            },
            Ok(None) => {
                return Ok(obj);
            },
            Ok(Some(_)) => {
                let tag = it.tag_name();
                if str_eq(tag, "name") {
                    match read_text(it) {
                        Ok(v) => {
                            obj.name = v;
                        },
                        Err(()) => {
                            return Err(());
                        },
                    }
                } else if str_eq(tag, "bitOffset") {
                    match read_usize(it) {
                        Ok(v) => {
                            obj.bitOffset = v;
                        },
                        Err(()) => {
                            return Err(());
                        },
                    }
                } else if str_eq(tag, "bitWidth") {
                    match read_usize(it) {
                        Ok(v) => {
                            obj.bitWidth = v;
                        },
                        Err(()) => {
                            return Err(());
                        },
                    }
                } else if str_eq(tag, "description") {
                    match read_text(it) {
                        Ok(v) => {
                            obj.description = Some(v);
                        },
                        Err(()) => {
                            return Err(());
                        },
                    }
                } else if str_eq(tag, "access") {
                    match read_text(it) {
                        Ok(v) => {
                            obj.access = Some(v);
                        },
                        Err(()) => {
                            return Err(());
                        },
                    }
                } else if str_eq(tag, "enumeratedValues") {
                    match decode_enumerated_values(it) {
                        Ok(v) => {
                            obj.enumeratedValues = Some(v);
                        },
                        Err(()) => {
                            return Err(());
                        },
                    }
                } else {
                    match it.skip_node() {
                        Ok(()) => {},
                        Err(()) => {
                            return Err(());
                        },
                    }
                }
            },
        }
        if it.pos() <= p0 {
            return Err(());
        }
    }
}

/// The children of the open element from `st` on, each read into the
/// field of a `EnumeratedValues` that its tag names and any other skipped, after `obj`.
/// A read that does not move the walk on is refused.
pub open spec fn spec_enumerated_values_fields(evs: Seq<XmlEventV>, st: St, depth: int, obj: EnumeratedValuesV) -> Result<(EnumeratedValuesV, St), ()>
    decreases evs.len() - st.pos,
{
    match child_loop(evs, st, depth) {
        Err(_) => Err(()),
        Ok((None, s)) => Ok((obj, s)),
        Ok((Some(_), s)) => {
            let tag = ev_name(evs[s.stack.last()]);
            let step = {
                if tag == "enumeratedValue"@ {
                    match spec_enumerated_value(evs, s) {
                        Ok((v, s2)) => Ok((EnumeratedValuesV { enumeratedValue: obj.enumeratedValue.push(v) }, s2)),
                        Err(_) => Err(()),
                    }
                } else {
                    match spec_skip(evs, s) {
                        Ok(s2) => Ok((obj, s2)),
                        Err(_) => Err(()),
                    }
                }
            };
            match step {
                Err(_) => Err(()),
                Ok((o2, s2)) => if st.pos < s2.pos <= evs.len() {
                    spec_enumerated_values_fields(evs, s2, depth, o2)
                } else {
                    Err(())
                },
            }
        },
    }
}

/// A `EnumeratedValues` read from the open element.
pub open spec fn spec_enumerated_values(evs: Seq<XmlEventV>, st: St) -> Result<(EnumeratedValuesV, St), ()> {
    spec_enumerated_values_fields(evs, st, st.stack.len() as int, empty_enumerated_values())
}

/// Reads a `EnumeratedValues` from the open element, up to its end.
pub fn decode_enumerated_values(it: &mut XmlIter) -> (r: Result<EnumeratedValues, ()>)
    requires
        old(it).wf(),
    ensures
        final(it).wf(),
        final(it).evs() == old(it).evs(),
        match spec_enumerated_values(old(it).evs(), old(it).st()) {
            Ok((v, s)) => r matches Ok(x) && x@ == v && final(it).st() == s,
            Err(_) => r is Err,
        },
{
    let ghost evs = it.evs();
    let depth = it.depth();
    let mut obj = EnumeratedValues::empty();
    assert(obj@ == empty_enumerated_values());
    loop
        invariant
            it.wf(),
            it.evs() == evs,
            evs == old(it).evs(),
            depth == old(it).st().stack.len(),
            spec_enumerated_values(evs, old(it).st()) == spec_enumerated_values_fields(evs, it.st(), depth as int, obj@),
        decreases evs.len() - it.st().pos,
    {
        let p0 = it.pos();
        match it.next_child(depth) {
            Err(()) => {
                return Err(());
            },
            Ok(None) => {
                return Ok(obj);
            },
            Ok(Some(_)) => {
                let tag = it.tag_name();
                if str_eq(tag, "enumeratedValue") {
                    match decode_enumerated_value(it) {
                        Ok(v) => {
                            let ghost prev = obj.enumeratedValue@;
                            obj.enumeratedValue.push(v);
                            proof {
                                assert(enumerated_value_list_view(obj.enumeratedValue@) =~= enumerated_value_list_view(prev).push(v@));
                            }
                        },
                        Err(()) => {
                            return Err(());
                        },
                    }
                } else {
                    match it.skip_node() {
                        Ok(()) => {},
                        Err(()) => {
                            return Err(());
                        },
                    }
                }
            },
        }
        if it.pos() <= p0 {
            return Err(());
        }
    }
}

/// The children of the open element from `st` on, each read into the
/// field of a `EnumeratedValue` that its tag names and any other skipped, after `obj`.
/// A read that does not move the walk on is refused.
pub open spec fn spec_enumerated_value_fields(evs: Seq<XmlEventV>, st: St, depth: int, obj: EnumeratedValueV) -> Result<(EnumeratedValueV, St), ()>
    decreases evs.len() - st.pos,
{
    match child_loop(evs, st, depth) {
        Err(_) => Err(()),
        Ok((None, s)) => Ok((obj, s)),
        Ok((Some(_), s)) => {
            let tag = ev_name(evs[s.stack.last()]);
            let step = {
                if tag == "name"@ {
                    match spec_text(evs, s) {
                        Ok((v, s2)) => Ok((EnumeratedValueV { name: v, ..obj }, s2)),
                        Err(_) => Err(()),
                    }
                } else if tag == "value"@ {
                    match spec_text(evs, s) {
                        Ok((v, s2)) => Ok((EnumeratedValueV { value: v, ..obj }, s2)),
                        Err(_) => Err(()),
                    }
                } else if tag == "description"@ {
                    match spec_text(evs, s) {
                        Ok((v, s2)) => Ok((EnumeratedValueV { description: Some(v), ..obj }, s2)),
                        Err(_) => Err(()),
                    }
                } else {
                    match spec_skip(evs, s) {
                        Ok(s2) => Ok((obj, s2)),
                        Err(_) => Err(()),
                    }
                }
            };
            match step {
                Err(_) => Err(()),
                Ok((o2, s2)) => if st.pos < s2.pos <= evs.len() {
                    spec_enumerated_value_fields(evs, s2, depth, o2)
                } else {
                    Err(())
                },
            }
        },
    }
}

/// A `EnumeratedValue` read from the open element.
pub open spec fn spec_enumerated_value(evs: Seq<XmlEventV>, st: St) -> Result<(EnumeratedValueV, St), ()> {
    spec_enumerated_value_fields(evs, st, st.stack.len() as int, empty_enumerated_value())
}

/// Reads a `EnumeratedValue` from the open element, up to its end.
pub fn decode_enumerated_value(it: &mut XmlIter) -> (r: Result<EnumeratedValue, ()>)
    requires
        old(it).wf(),
    ensures
        final(it).wf(),
        final(it).evs() == old(it).evs(),
        match spec_enumerated_value(old(it).evs(), old(it).st()) {
            Ok((v, s)) => r matches Ok(x) && x@ == v && final(it).st() == s,
            Err(_) => r is Err,
        },
{
    let ghost evs = it.evs();
    let depth = it.depth();
    let mut obj = EnumeratedValue::empty();
    assert(obj@ == empty_enumerated_value());
    loop
        invariant
            it.wf(),
            it.evs() == evs,
            evs == old(it).evs(),
            depth == old(it).st().stack.len(),
            spec_enumerated_value(evs, old(it).st()) == spec_enumerated_value_fields(evs, it.st(), depth as int, obj@),
        decreases evs.len() - it.st().pos,
    {
        let p0 = it.pos();
        match it.next_child(depth) {
            Err(()) => {
                return Err(());
            },
            Ok(None) => {
                return Ok(obj);
            },
            Ok(Some(_)) => {
                let tag = it.tag_name();
                if str_eq(tag, "name") {
                    match read_text(it) {
                        Ok(v) => {
                            obj.name = v;
                        },
                        Err(()) => {
                            return Err(());
                        },
                    }
                } else if str_eq(tag, "value") {
                    match read_text(it) {
                        Ok(v) => {
                            obj.value = v;
                        },
                        Err(()) => {
                            return Err(());
                        },
                    }
                } else if str_eq(tag, "description") {
                    match read_text(it) {
                        Ok(v) => {
                            obj.description = Some(v);
                        },
                        Err(()) => {
                            return Err(());
                        },
                    }
                } else {
                    match it.skip_node() {
                        Ok(()) => {},
                        Err(()) => {
                            return Err(());
                        },
                    }
                }
            },
        }
        if it.pos() <= p0 {
            return Err(());
        }
    }
}

/// The children of the open element from `st` on, each read into the
/// field of a `CPU` that its tag names and any other skipped, after `obj`.
/// A read that does not move the walk on is refused.
pub open spec fn spec_cpu_fields(evs: Seq<XmlEventV>, st: St, depth: int, obj: CPUV) -> Result<(CPUV, St), ()>
    decreases evs.len() - st.pos,
{
    match child_loop(evs, st, depth) {
        Err(_) => Err(()),
        Ok((None, s)) => Ok((obj, s)),
        Ok((Some(_), s)) => {
            let tag = ev_name(evs[s.stack.last()]);
            let step = {
                if tag == "name"@ {
                    match spec_text(evs, s) {
                        Ok((v, s2)) => Ok((CPUV { name: v, ..obj }, s2)),
                        Err(_) => Err(()),
                    }
                } else if tag == "revision"@ {
                    match spec_text(evs, s) {
                        Ok((v, s2)) => Ok((CPUV { revision: v, ..obj }, s2)),
                        Err(_) => Err(()),
                    }
                } else {
                    match spec_skip(evs, s) {
                        Ok(s2) => Ok((obj, s2)),
                        Err(_) => Err(()),
                    }
                }
            };
            match step {
                Err(_) => Err(()),
                Ok((o2, s2)) => if st.pos < s2.pos <= evs.len() {
                    spec_cpu_fields(evs, s2, depth, o2)
                } else {
                    Err(())
                },
            }
        },
    }
}

/// A `CPU` read from the open element.
pub open spec fn spec_cpu(evs: Seq<XmlEventV>, st: St) -> Result<(CPUV, St), ()> {
    spec_cpu_fields(evs, st, st.stack.len() as int, empty_cpu())
}

/// Reads a `CPU` from the open element, up to its end.
pub fn decode_cpu(it: &mut XmlIter) -> (r: Result<CPU, ()>)
    requires
        old(it).wf(),
    ensures
        final(it).wf(),
        final(it).evs() == old(it).evs(),
        match spec_cpu(old(it).evs(), old(it).st()) {
            Ok((v, s)) => r matches Ok(x) && x@ == v && final(it).st() == s,
            Err(_) => r is Err,
        },
{
    let ghost evs = it.evs();
    let depth = it.depth();
    let mut obj = CPU::empty();
    assert(obj@ == empty_cpu());
    loop
        invariant
            it.wf(),
            it.evs() == evs,
            evs == old(it).evs(),
            depth == old(it).st().stack.len(),
            spec_cpu(evs, old(it).st()) == spec_cpu_fields(evs, it.st(), depth as int, obj@),
        decreases evs.len() - it.st().pos,
    {
        let p0 = it.pos();
        match it.next_child(depth) {
            Err(()) => {
                return Err(());
            },
            Ok(None) => {
                return Ok(obj);
            },
            Ok(Some(_)) => {
                let tag = it.tag_name();
                if str_eq(tag, "name") {
                    match read_text(it) {
                        Ok(v) => {
                            obj.name = v;
                        },
                        Err(()) => {
                            return Err(());
                        },
                    }
                } else if str_eq(tag, "revision") {
                    match read_text(it) {
                        Ok(v) => {
                            obj.revision = v;
                        },
                        Err(()) => {
                            return Err(());
                        },
                    }
                } else {
                    match it.skip_node() {
                        Ok(()) => {},
                        Err(()) => {
                            return Err(());
                        },
                    }
                }
            },
        }
        if it.pos() <= p0 {
            return Err(());
        }
    }
}

/// The device that the events `evs` describe: the children of the root
/// element read into a `Device`. `Err` where an end event does not close
/// the innermost open element, where there is no root element before a
/// parser error, or where reading fails.
pub open spec fn spec_svd_device_of(evs: Seq<XmlEventV>) -> Result<DeviceV, ()> {
    if !ends_match(evs, 0, Seq::empty()) {
        Err(())
    } else {
        match first_start(evs, 0) {
            None => Err(()),
            Some(i) => match spec_device(evs, St { pos: i + 1, stack: seq![i] }) {
                Ok((d, _)) => Ok(d),
                Err(_) => Err(()),
            },
        }
    }
}

/// Reads the device that a list of XML events describes (see `spec_svd_device_of`).
pub fn svd_device_from_events(events: Vec<XmlEvent>) -> (r: Result<Device, ()>)
    ensures
        match spec_svd_device_of(events_view(events@)) {
            Ok(d) => r matches Ok(x) && x@ == d,
            Err(_) => r is Err,
        },
{
    if !check_nesting(&events) {
        return Err(());
    }
    let mut it = match XmlIter::new(events) {
        Ok(it) => it,
        Err(()) => {
            return Err(());
        },
    };
    decode_device(&mut it)
}

/// Reads the device that an SVD document describes: its events as `xml-rs`
/// gives them, read as `svd_device_from_events` reads them.
pub fn read_svd_device(bytes: &[u8]) -> (r: Result<Device, ()>)
    ensures
        match spec_svd_device_of(xml_events_of(bytes@)) {
            Ok(d) => r matches Ok(x) && x@ == d,
            Err(_) => r is Err,
        },
{
    let events = xml_events(bytes);
    svd_device_from_events(events)
}

} // verus!
