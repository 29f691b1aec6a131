use svd::ioregs::listing::{
    bit_range, parse_num, register_key, write_doc_comment, write_field, write_peripheral, write_register,
    write_registers,
};
use svd::ioregs::model::{Cluster, EnumeratedValue, Field, Peripheral, Register, Regs};
use svd::ioregs::order::sort_order;

fn text(s: &str) -> Option<String> {
    Some(s.to_string())
}

fn field(name: &str, offset: Option<usize>, width: Option<usize>, range: Option<&str>) -> Field {
    Field {
        name: name.to_string(),
        description: None,
        bitOffset: offset,
        bitWidth: width,
        bitRange: range.map(|r| r.to_string()),
        access: None,
        enumeratedValues: Vec::new(),
    }
}

fn value(name: &str, v: &str, desc: Option<&str>) -> EnumeratedValue {
    EnumeratedValue { name: name.to_string(), value: v.to_string(), description: desc.map(|d| d.to_string()) }
}

fn register(name: &str, offset: Option<&str>, size: Option<usize>, fields: Vec<Field>) -> Register {
    Register {
        name: name.to_string(),
        dim: None,
        dimIncrement: None,
        description: None,
        addressOffset: offset.map(|o| o.to_string()),
        size,
        access: None,
        fields,
    }
}

#[test]
fn numbers_in_hex_and_decimal() {
    assert_eq!(parse_num("0x1f"), Some(31));
    assert_eq!(parse_num("42"), Some(42));
    assert_eq!(parse_num("0xFFFFFFFF"), Some(u32::MAX));
    assert_eq!(parse_num("0x100000000"), None);
    assert_eq!(parse_num("0x"), None);
    assert_eq!(parse_num("4x"), None);
    assert_eq!(parse_num("4294967296"), None);
}

#[test]
fn bit_ranges() {
    assert_eq!(bit_range("[7:4]"), Some((4, 7)));
    assert_eq!(bit_range("[31:0]"), Some((0, 31)));
    assert_eq!(bit_range("[7:4:1]"), None);
    assert_eq!(bit_range("[74]"), None);
    assert_eq!(bit_range("7:4"), None);
    assert_eq!(bit_range("[x:4]"), None);
}

#[test]
fn doc_comments() {
    assert_eq!(write_doc_comment(None), "");
    let d = "Enable".to_string();
    assert_eq!(write_doc_comment(Some(&d)), " //= Enable");
}

#[test]
fn field_lines() {
    assert_eq!(write_field(&field("EN", Some(1), Some(1), None)), "         1 => EN,\n");
    let mut per = field("PER", Some(0), Some(4), None);
    per.description = text("Period");
    assert_eq!(write_field(&per), "         0..3 => PER, //= Period\n");
    assert_eq!(write_field(&field("WINDOW", None, None, Some("[7:4]"))), "         4..7 => WINDOW,\n");
    assert_eq!(write_field(&field("B", None, None, Some("[3:3]"))), "         3 => B,\n");
    // A range whose last bit is just below its first gives a width of 0.
    assert_eq!(write_field(&field("C", None, None, Some("[2:3]"))), "         3 => C,\n");
    assert_eq!(write_field(&field("RESERVED", None, None, None)), "");
    let mut mode = field("MODE", Some(0), Some(2), None);
    mode.enumeratedValues = vec![value("A", "0", Some("first")), value("", "1", None), value("B", "2", None)];
    assert_eq!(
        write_field(&mode),
        "         0..1 => MODE {\n             0 => A, //= first\n             2 => B,\n         }\n"
    );
}

#[test]
fn field_end_wraps() {
    let f = field("W", Some(usize::MAX), Some(2), None);
    assert_eq!(write_field(&f), format!("         {}..0 => W,\n", usize::MAX));
}

#[test]
fn register_lines() {
    let mut ctrl = register("CTRL", Some("0x0"), Some(8), vec![field("EN", Some(1), Some(1), None)]);
    ctrl.description = text("Control");
    assert_eq!(write_register(&ctrl), "    0x0 => reg8 CTRL { //= Control\n         1 => EN,\n    }\n");
    let mut data = register("DATA%s", Some("0x10"), None, vec![]);
    data.dim = Some(4);
    data.dimIncrement = text("0x4");
    assert_eq!(write_register(&data), "    // repeat: 4 increment 0x4\n    0x10 => reg0 DATA%s {\n    }\n");
    let bare = register("X", None, None, vec![]);
    assert_eq!(write_register(&bare), "     => reg0 X {\n    }\n");
}

#[test]
fn stable_order_of_keys() {
    assert_eq!(sort_order(&vec![3, 1, 3, 0]), vec![3, 1, 0, 2]);
    assert_eq!(sort_order(&vec![]), Vec::<usize>::new());
    assert_eq!(sort_order(&vec![5, 5, 5]), vec![0, 1, 2]);
}

#[test]
fn register_keys() {
    assert_eq!(register_key(&register("A", None, None, vec![])), 0);
    assert_eq!(register_key(&register("A", Some("zz"), None, vec![])), 1);
    assert_eq!(register_key(&register("A", Some("0x4"), None, vec![])), 6);
}

#[test]
fn registers_sorted_by_offset() {
    let a = register("A", Some("0x8"), Some(8), vec![]);
    let b = register("B", Some("0x0"), Some(8), vec![]);
    let c = register("C", None, Some(8), vec![]);
    let d = register("D", Some("0x4"), Some(8), vec![]);
    let e = register("E", Some("00"), Some(8), vec![]);
    let mut regs = vec![&a, &b, &c, &d, &e];
    let out = write_registers(&mut regs);
    let names: Vec<&str> = regs.iter().map(|r| r.name.as_str()).collect();
    assert_eq!(names, vec!["C", "B", "E", "D", "A"]);
    let expected: String = [&c, &b, &e, &d, &a].iter().map(|r| write_register(r)).collect();
    assert_eq!(out, expected);
}

#[test]
fn peripheral_block() {
    let r1 = register("R1", Some("0x4"), Some(32), vec![]);
    let r2 = register("R2", Some("0x8"), Some(32), vec![]);
    let r3 = register("R3", Some("0x0"), Some(32), vec![]);
    let r4 = register("R4", Some("0x0"), Some(32), vec![]);
    let p = Peripheral {
        name: "PORT".to_string(),
        version: None,
        description: None,
        groupName: None,
        prependToName: None,
        baseAddress: text("0x41004400"),
        access: None,
        interrupt: None,
        registers: vec![
            Regs::register(register("R1", Some("0x4"), Some(32), vec![])),
            Regs::cluster(Cluster {
                name: "GRP".to_string(),
                registers: vec![
                    register("R2", Some("0x8"), Some(32), vec![]),
                    register("R3", Some("0x0"), Some(32), vec![]),
                ],
            }),
            Regs::register(register("R4", Some("0x0"), Some(32), vec![])),
        ],
    };
    let expected = format!(
        "ioregs!(PORT = {{\n    // cluster: GRP\n{}{}{}{}}});\n",
        write_register(&r3),
        write_register(&r2),
        write_register(&r4),
        write_register(&r1)
    );
    assert_eq!(write_peripheral(&p), expected);
}
