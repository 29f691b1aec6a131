//! Reading a device description from the bytes of its XML document.

use vstd::prelude::*;
use crate::fromxml::{XmlEvent, XmlEventV, XmlIter, St, events_view, ends_match, first_start, check_nesting,
    xml_events, xml_events_of};
use crate::ioregs::model::{Device, DeviceV};
use crate::ioregs::decode::{spec_device, decode_device};

verus! {

/// The device that the events `evs` describe: the children of the root
/// element read into a `Device`. `Err` where an end event does not close
/// the innermost open element, where there is no root element before a
/// parser error, or where reading fails.
pub open spec fn spec_device_of(evs: Seq<XmlEventV>) -> Result<DeviceV, ()> {
    if !ends_match(evs, 0, Seq::empty()) {
        Err(())
    } else {
        match first_start(evs, 0) {
            None => Err(()),
            Some(i) => match spec_device(evs, St { pos: i + 1, stack: seq![i] }) {
                Ok((d, _)) => Ok(d),
                Err(_) => Err(()),
            },
        }
    }
}

/// Reads the device that a list of XML events describes (see `spec_device_of`).
pub fn device_from_events(events: Vec<XmlEvent>) -> (r: Result<Device, ()>)
    ensures
        match spec_device_of(events_view(events@)) {
            Ok(d) => r matches Ok(x) && x@ == d,
            Err(_) => r is Err,
        },
{
    if !check_nesting(&events) {
        return Err(());
    }
    let mut it = match XmlIter::new(events) {
        Ok(it) => it,
        Err(()) => {
            return Err(());
        },
    };
    decode_device(&mut it)
}

/// Reads the device that an XML document describes: its events as
/// `xml-rs` gives them, read as `device_from_events` reads them.
pub fn read_device(bytes: &[u8]) -> (r: Result<Device, ()>)
    ensures
        match spec_device_of(xml_events_of(bytes@)) {
            Ok(d) => r matches Ok(x) && x@ == d,
            Err(_) => r is Err,
        },
{
    let events = xml_events(bytes);
    device_from_events(events)
}

} // verus!
