use svd::common::{check_device, parse_xml};
use svd::device_code::svd_device_code;
use svd::dump::{access, dump_macro, dump_symbols};
use svd::fromxml::{check_nesting, FromXml, XmlEvent, XmlIter};
use svd::ioregs::model::Interrupt;
use svd::ioregs::listing::write_device;
use svd::ioregs::load::{device_from_events, read_device};
use svd::svd_xml::read_svd_device;

const DOC: &str = r#"<?xml version="1.0" encoding="utf-8"?>
<device schemaVersion="1.1">
  <vendor>Atmel</vendor>
  <name>SAMD21</name>
  <access>read-write</access>
  <cpu><name>CM0+</name><revision>r0p1</revision></cpu>
  <peripherals>
    <peripheral>
      <name>WDT</name>
      <description>Watchdog Timer</description>
      <baseAddress>0x40001000</baseAddress>
      <interrupt><name>WDT</name><value>2</value></interrupt>
      <registers>
        <register>
          <name>CONFIG</name>
          <description>Configuration</description>
          <addressOffset>0x1</addressOffset>
          <size>8</size>
          <fields>
            <field>
              <name>PER</name>
              <bitOffset>0</bitOffset>
              <bitWidth>4</bitWidth>
              <enumeratedValues>
                <enumeratedValue><name>8</name><description>8 clock cycles</description><value>0x0</value></enumeratedValue>
                <enumeratedValue><name>16384</name><description>16384 clock cycles</description><value>0xB</value></enumeratedValue>
              </enumeratedValues>
            </field>
            <field>
              <name>WINDOW</name>
              <bitOffset>4</bitOffset>
              <bitWidth>4</bitWidth>
              <bitRange>[7:4]</bitRange>
            </field>
          </fields>
        </register>
        <register>
          <name>CTRL</name>
          <addressOffset>0x0</addressOffset>
          <size>8</size>
          <fields>
            <field><name>ENABLE</name><bitOffset>1</bitOffset><bitWidth>1</bitWidth></field>
          </fields>
        </register>
      </registers>
    </peripheral>
    <peripheral derivedFrom="WDT">
      <name>WDT2</name>
      <baseAddress>0x40002000</baseAddress>
    </peripheral>
  </peripherals>
</device>
"#;

#[test]
fn events_and_walk() {
    let mut it = XmlIter::from_document(b"<a><b>x<!-- note -->y</b><c/></a>").ok().unwrap();
    assert_eq!(it.tag_name(), "a");
    assert_eq!(it.depth(), 1);
    assert!(it.next_child(1).unwrap().is_some());
    assert_eq!(it.tag_name(), "b");
    assert_eq!(it.depth(), 2);
    assert_eq!(it.inner_text().unwrap(), "xy");
    assert_eq!(it.depth(), 1);
    assert!(it.next_child(1).unwrap().is_some());
    assert_eq!(it.tag_name(), "c");
    it.skip_node().unwrap();
    assert_eq!(it.depth(), 1);
    assert_eq!(it.next_child(1).unwrap(), None);
    assert_eq!(it.depth(), 0);
}

#[test]
fn attributes_of_an_element() {
    let it = XmlIter::from_document(br#"<p derivedFrom="X" k="v"/>"#).ok().unwrap();
    let attrs = it.attributes();
    assert_eq!(attrs.len(), 2);
    assert_eq!(attrs[0], ("derivedFrom".to_string(), "X".to_string()));
}

#[test]
fn nesting_checked() {
    let ok = vec![
        XmlEvent::StartElement("a".to_string(), vec![]),
        XmlEvent::EndElement("a".to_string()),
    ];
    assert!(check_nesting(&ok));
    let it = XmlIter::from_events(ok).ok().unwrap();
    assert_eq!(it.tag_name(), "a");
    let bad = vec![
        XmlEvent::StartElement("a".to_string(), vec![]),
        XmlEvent::EndElement("b".to_string()),
    ];
    assert!(!check_nesting(&bad));
    assert!(XmlIter::from_events(vec![XmlEvent::EndElement("a".to_string())]).is_err());
    assert!(device_from_events(bad).is_err());
    assert!(device_from_events(vec![XmlEvent::Other]).is_err());
    assert!(device_from_events(vec![XmlEvent::Error]).is_err());
}

#[test]
fn malformed_documents_refused() {
    assert!(read_device(b"<device><a></b></device>").is_err());
    assert!(read_device(b"").is_err());
    assert!(read_svd_device(b"<device><peripherals>").is_err());
    // A number that is no number.
    assert!(read_device(b"<device><peripherals><peripheral><name>A</name><interrupt><value>x</value></interrupt></peripheral></peripherals></device>").is_err());
}

#[test]
fn listing_of_a_document() {
    let device = read_device(DOC.as_bytes()).ok().unwrap();
    assert_eq!(device.vendor.as_deref(), Some("Atmel"));
    assert_eq!(device.cpu.as_ref().unwrap().revision.as_deref(), Some("r0p1"));
    assert_eq!(device.peripherals.len(), 2);
    let wdt = &device.peripherals[0];
    assert_eq!(wdt.description.as_deref(), Some("Watchdog Timer"));
    assert_eq!(wdt.interrupt.as_ref().unwrap().value, Some(2));
    let expected = "ioregs!(WDT = {\n\
        \x20   0x0 => reg8 CTRL {\n\
        \x20        1 => ENABLE,\n\
        \x20   }\n\
        \x20   0x1 => reg8 CONFIG { //= Configuration\n\
        \x20        0..3 => PER {\n\
        \x20            0x0 => 8, //= 8 clock cycles\n\
        \x20            0xB => 16384, //= 16384 clock cycles\n\
        \x20        }\n\
        \x20        4..7 => WINDOW,\n\
        \x20   }\n\
        });\n\
        ioregs!(WDT2 = {\n\
        });\n";
    assert_eq!(write_device(&device), expected);
}

#[test]
fn svd_model_of_a_document() {
    let device = read_svd_device(DOC.as_bytes()).ok().unwrap();
    let ps = &device.peripherals.as_ref().unwrap().peripheral;
    assert_eq!(ps.len(), 2);
    assert_eq!(ps[0].baseAddress, 0x4000_1000);
    assert_eq!(ps[1].derivedFrom.as_deref(), Some("WDT"));
    let regs = &ps[0].registers.as_ref().unwrap().register;
    assert_eq!(regs[0].addressOffset, 1);
    assert_eq!(regs[0].size, Some(8));
    assert_eq!(ps[0].interrupt.as_ref().unwrap().value, 2);
    assert!(check_device(&device));
}

#[test]
fn symbols_of_a_document() {
    let device = read_svd_device(DOC.as_bytes()).ok().unwrap();
    assert_eq!(
        dump_symbols(parse_xml(device)),
        "\"SAMD21_WDT\" = 0x40001000;\n\"SAMD21_WDT2\" = 0x40002000;\n"
    );
}

#[test]
fn macro_of_a_document() {
    let device = read_svd_device(DOC.as_bytes()).ok().unwrap();
    let expected = "/// Some(Watchdog Timer)\n\
        peripheral WDT {\n\
        \x20 0x0 => reg8 CTRL {\n\
        \x20   1 => rw[1] ENABLE,\n\
        \x20 }\n\
        \n\
        \x20 /// Configuration\n\
        \x20 0x1 => reg8 CONFIG {\n\
        \x20   0 => rw[4] PER {\n\
        \x20     /// 8 clock cycles\n\
        \x20     USE_8_CLOCK_CYCLES = 0x0,\n\
        \x20     /// 16384 clock cycles\n\
        \x20     USE_16384_CLOCK_CYCLES = 0xB,\n\
        \x20   },\n\
        \x20   4 => rw[4] WINDOW,\n\
        \x20 }\n\
        \n\
        }\n\
        \n\
        /// None\n\
        peripheral WDT2 {\n\
        }\n\
        \n";
    assert_eq!(dump_macro(device), expected);
}

#[test]
fn code_of_a_document() {
    let device = read_svd_device(DOC.as_bytes()).ok().unwrap();
    let code = svd_device_code("SAMD21", device).unwrap();
    assert!(code.contains("pub mod WDT {"));
    assert!(code.contains("pub mod CONFIG {"));
    assert!(code.contains("USE_16384_CLOCK_CYCLES = 11,\n"));
    assert!(code.contains("static SAMD21_WDT2: WDT::Peripheral;\n"));
}

#[test]
fn access_labels() {
    assert_eq!(access("read-only"), "r");
    assert_eq!(access("write-only"), "w");
    assert_eq!(access("read-write"), "rw");
    assert_eq!(access("writeOnce"), "rw");
}

#[test]
fn from_xml_of_parts() {
    let mut it = XmlIter::from_document(b"<interrupt><name>EIC</name><value>4</value><x>skipped</x></interrupt>").ok().unwrap();
    let i = Interrupt::from_xml(&mut it).ok().unwrap();
    assert_eq!(i.name, "EIC");
    assert_eq!(i.value, Some(4));
    assert_eq!(it.depth(), 0);
    let mut it = XmlIter::from_document(b"<n>12</n>").ok().unwrap();
    assert_eq!(usize::from_xml(&mut it), Ok(12));
    let mut it = XmlIter::from_document(b"<n>twelve</n>").ok().unwrap();
    assert_eq!(<String as FromXml>::from_xml(&mut it), Ok("twelve".to_string()));
    let mut it = XmlIter::from_document(b"<n>twelve</n>").ok().unwrap();
    assert!(usize::from_xml(&mut it).is_err());
}
