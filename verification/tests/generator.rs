use svd::ast::{Cluster, FieldAst, PeripheralAst, RegList, RegisterAst};
use svd::common::{enum_value, gen_regs, make_nice_enum};
use svd::device::{EnumeratedValue, EnumeratedValues, Field, Fields, Register};
use svd::device_code::parse_tokens;
use svd::dump::dump_symbols;
use svd::generator::{generate_peripheral, generate_peripheral_registers, generate_regdefs, generate_system};
use svd::layout::{layout_fits, layout_registers, StructMatch};
use svd::omap::OffsetMap;
use svd::parser::{parse_field, parse_fields, parse_peripheral, parse_reg};
use svd::reader::{write_token, Reader};
use svd::text::{decimal, hex, parse_usize, replace, str_eq};
use svd::token::{Punct, Token, TokenTree};

fn ident(s: &str) -> TokenTree {
    TokenTree::Token(Token::Ident(s.to_string()))
}

fn int_lit(s: &str) -> TokenTree {
    TokenTree::Token(Token::Int(s.to_string()))
}

fn punct(p: Punct) -> TokenTree {
    TokenTree::Token(Token::Punct(p))
}

fn string(s: &str) -> TokenTree {
    TokenTree::Token(Token::Str(s.to_string()))
}

fn reg(name: &str, width: usize) -> RegisterAst {
    RegisterAst { name: name.to_string(), fields: OffsetMap::new(), width, dim: None }
}

fn value(name: &str, desc: Option<&str>) -> EnumeratedValue {
    EnumeratedValue { name: name.to_string(), value: "0".to_string(), description: desc.map(|d| d.to_string()) }
}

#[test]
fn text_helpers() {
    assert_eq!(decimal(0), "0");
    assert_eq!(decimal(187), "187");
    assert_eq!(hex(0), "0");
    assert_eq!(hex(0x4000_1000), "40001000");
    assert_eq!(hex(0xdead), "dead");
    assert_eq!(replace("DATA%s", "%s", "3"), "DATA3");
    assert_eq!(replace("%s_%s", "%s", "1"), "1_1");
    assert_eq!(replace("abc", "%s", "1"), "abc");
    assert!(str_eq("a", "a"));
    assert!(!str_eq("a", "b"));
    assert_eq!(parse_usize("+12", 10), Some(12));
    assert_eq!(parse_usize("", 10), None);
    assert_eq!(parse_usize("ff", 16), Some(255));
}

#[test]
fn nice_enum_labels() {
    assert_eq!(make_nice_enum(&value("16384", Some("16384 clock cycles"))), "USE_16384_CLOCK_CYCLES");
    assert_eq!(make_nice_enum(&value("ON", Some("switched on"))), "ON");
    assert_eq!(make_nice_enum(&value("1x", Some("x-y z"))), "_X_Y_Z");
    assert_eq!(make_nice_enum(&value("1x", Some("a-b c"))), "USE_A_B_C");
    assert_eq!(make_nice_enum(&value("3", None)), "3");
    // A character whose upper case is several characters stays as it is.
    assert_eq!(make_nice_enum(&value("1", Some("x straße"))), "_X_STRAßE");
}

#[test]
fn enum_values_in_hex_or_decimal() {
    assert_eq!(enum_value("0xB"), Some(11));
    assert_eq!(enum_value("12"), Some(12));
}

#[test]
fn offset_map_keeps_keys_sorted() {
    let mut m: OffsetMap<RegisterAst> = OffsetMap::new();
    assert!(m.insert(8, reg("C", 4)).is_none());
    assert!(m.insert(0, reg("A", 4)).is_none());
    assert!(m.insert(4, reg("B", 4)).is_none());
    assert_eq!(m.len(), 3);
    assert_eq!((m.key_at(0), m.key_at(1), m.key_at(2)), (0, 4, 8));
    let prev = m.insert(4, reg("B2", 2)).unwrap();
    assert_eq!(prev.name, "B");
    assert_eq!(m.len(), 3);
    assert_eq!(m.value_at(1).name, "B2");
}

#[test]
fn layout_fills_gaps() {
    let mut m: OffsetMap<RegisterAst> = OffsetMap::new();
    m.insert(0, reg("A", 4));
    m.insert(40, reg("B", 2));
    assert!(layout_fits(&m));
    let slots = layout_registers(&m);
    let kinds: Vec<(bool, usize)> = slots
        .iter()
        .map(|s| match s {
            StructMatch::Reg(i) => (true, *i),
            StructMatch::Space(n) => (false, *n),
        })
        .collect();
    assert_eq!(kinds, vec![(true, 0), (false, 32), (false, 4), (true, 1)]);
    let d = generate_regdefs(&m);
    assert_eq!(
        d.reg_structfields,
        "pub A: A::Reg,\nreserved_0: [u8; 32],\nreserved_1: [u8; 4],\npub B: B::Reg,\n"
    );
    assert_eq!(d.reg_defaults, "A: A::INIT,\nreserved_0: [0; 32],\nreserved_1: [0; 4],\nB: B::INIT,\n");
}

#[test]
fn peripheral_and_system_code() {
    let mut fields: OffsetMap<FieldAst> = OffsetMap::new();
    fields.insert(0, FieldAst { name: "PER".to_string(), width: 4, enumerate: Some(vec![("CYC8".to_string(), 0)]) });
    fields.insert(4, FieldAst { name: "EN".to_string(), width: 1, enumerate: None });
    let mut regs: OffsetMap<RegisterAst> = OffsetMap::new();
    regs.insert(1, RegisterAst { name: "CONFIG".to_string(), fields, width: 1, dim: None });
    let p = PeripheralAst { name: "WDT".to_string(), address: 0x4000_1000, regs: RegList::Registers(regs), derives: None };
    let code = generate_peripheral(&p);
    assert!(code.contains("pub mod WDT {"));
    assert!(code.contains("reserved_0: [u8; 1],\n"));
    assert!(code.contains("const PER: ::svd::regs::RegField = ::svd::regs::RegField { width: 4 };\n"));
    assert!(code.contains("CYC8 = 0,\n"));
    assert!(code.contains("pub field: UnsafeCell<u8>,"));
    let c = Cluster { name: "I2CM".to_string(), registers: OffsetMap::new() };
    let s = PeripheralAst { name: "SERCOM0".to_string(), address: 0x4200_0800, regs: RegList::Cluster(vec![c]), derives: None };
    let sys = generate_system("SAMD21", &vec![p, s]);
    assert!(sys.contains("static SAMD21_WDT: WDT::Peripheral;\n"));
    assert!(sys.contains("static SAMD21_SERCOM0_I2CM: SERCOM0::I2CM::Cluster;\n"));
    assert!(sys.contains("pub WDT: &'static WDT::Peripheral,\n"));
}

#[test]
fn symbols_of_clusters() {
    let c = Cluster { name: "I2CM".to_string(), registers: OffsetMap::new() };
    let s = PeripheralAst { name: "SERCOM0".to_string(), address: 0x4200_0800, regs: RegList::Cluster(vec![c]), derives: None };
    assert_eq!(
        dump_symbols(vec![s]),
        "\"SAMD21_SERCOM0\" = 0x42000800;\n\"SAMD21_SERCOM0_I2CM\" = 0x42000800;\n"
    );
}

#[test]
fn include_arguments() {
    let ok = vec![string("SAMD21"), punct(Punct::Comma), string("./tests/samd21.xml")];
    assert_eq!(parse_tokens(&ok), Ok(("SAMD21".to_string(), "./tests/samd21.xml".to_string())));
    let short = vec![string("SAMD21"), punct(Punct::Comma)];
    assert_eq!(parse_tokens(&short), Err(()));
    let no_comma = vec![string("SAMD21"), punct(Punct::Semi), string("x")];
    assert_eq!(parse_tokens(&no_comma), Err(()));
    let not_str = vec![ident("SAMD21"), punct(Punct::Comma), string("x")];
    assert_eq!(parse_tokens(&not_str), Err(()));
}

#[test]
fn parse_a_field() {
    let tokens = vec![
        ident("rw"),
        TokenTree::Delimited(vec![int_lit("4")]),
        ident("PER"),
        TokenTree::Delimited(vec![
            ident("A"),
            punct(Punct::Eq),
            int_lit("1"),
            punct(Punct::Comma),
            ident("B"),
            punct(Punct::Eq),
            int_lit("2"),
        ]),
    ];
    let mut r = Reader::new(&tokens);
    let f = parse_field(&mut r).unwrap();
    assert_eq!(f.name, "PER");
    assert_eq!(f.width, 4);
    assert_eq!(f.enumerate, Some(vec![("A".to_string(), 1), ("B".to_string(), 2)]));
    assert!(r.is_done());
    let bad = vec![ident("x"), TokenTree::Delimited(vec![int_lit("4")]), ident("PER")];
    let mut r = Reader::new(&bad);
    assert!(parse_field(&mut r).is_err());
}

#[test]
fn parse_a_peripheral() {
    let field = vec![int_lit("0"), punct(Punct::FatArrow), ident("rw"), TokenTree::Delimited(vec![int_lit("4")]), ident("PER")];
    let body = vec![
        int_lit("1"),
        punct(Punct::FatArrow),
        ident("reg8"),
        ident("CONFIG"),
        TokenTree::Delimited(field),
        punct(Punct::Comma),
        int_lit("0"),
        punct(Punct::FatArrow),
        ident("reg32"),
        ident("CTRL"),
        TokenTree::Delimited(vec![]),
    ];
    let tokens = vec![ident("peripheral"), ident("WDT"), TokenTree::Delimited(body)];
    let mut r = Reader::new(&tokens);
    let p = parse_peripheral(&mut r).unwrap();
    assert_eq!(p.name, "WDT");
    assert_eq!(p.address, 0);
    match &p.regs {
        RegList::Registers(m) => {
            assert_eq!(m.len(), 2);
            assert_eq!((m.key_at(0), m.value_at(0).name.as_str(), m.value_at(0).width), (0, "CTRL", 4));
            assert_eq!((m.key_at(1), m.value_at(1).name.as_str(), m.value_at(1).width), (1, "CONFIG", 1));
            assert_eq!(m.value_at(1).fields.value_at(0).name, "PER");
        },
        RegList::Cluster(_) => panic!("expected a register table"),
    }
    let wrong = vec![ident("device"), ident("WDT"), TokenTree::Delimited(vec![])];
    let mut r = Reader::new(&wrong);
    assert!(parse_peripheral(&mut r).is_err());
}

#[test]
fn parse_error_messages() {
    let wrong = vec![ident("device"), ident("WDT"), TokenTree::Delimited(vec![])];
    assert_eq!(parse_peripheral(&mut Reader::new(&wrong)).err(), Some("unexpected identifier device".to_string()));
    let no_name = vec![ident("peripheral")];
    assert_eq!(parse_peripheral(&mut Reader::new(&no_name)).err(), Some("expecting identifier".to_string()));
    let no_body = vec![ident("peripheral"), ident("WDT")];
    assert_eq!(parse_peripheral(&mut Reader::new(&no_body)).err(), Some("expecting brackets".to_string()));
    let trailing = vec![ident("peripheral"), ident("WDT"), TokenTree::Delimited(vec![ident("x")])];
    assert_eq!(
        parse_peripheral(&mut Reader::new(&trailing)).err(),
        Some("Unexpected content at end of peripheral definition".to_string())
    );
    let no_arrow = vec![ident("peripheral"), ident("WDT"), TokenTree::Delimited(vec![int_lit("0"), ident("reg8")])];
    assert_eq!(parse_peripheral(&mut Reader::new(&no_arrow)).err(), Some("expecting simple token FatArrow, got Some(Ident(reg8))".to_string()));
    let bad_int = vec![ident("rw"), TokenTree::Delimited(vec![int_lit("4q")]), ident("PER")];
    assert_eq!(parse_field(&mut Reader::new(&bad_int)).err(), Some("invalid integer".to_string()));
    let no_int = vec![ident("rw"), TokenTree::Delimited(vec![ident("w")]), ident("PER")];
    assert_eq!(parse_field(&mut Reader::new(&no_int)).err(), Some("expecting integer".to_string()));
    let reg_trailing = vec![
        ident("peripheral"),
        ident("WDT"),
        TokenTree::Delimited(vec![
            int_lit("0"),
            punct(Punct::FatArrow),
            ident("reg8"),
            ident("CTRL"),
            TokenTree::Delimited(vec![ident("junk")]),
        ]),
    ];
    assert_eq!(
        parse_peripheral(&mut Reader::new(&reg_trailing)).err(),
        Some("Unexpected content in register definition".to_string())
    );
    let enum_trailing = vec![
        ident("rw"),
        TokenTree::Delimited(vec![int_lit("1")]),
        ident("EN"),
        TokenTree::Delimited(vec![ident("A"), punct(Punct::Eq), int_lit("1"), int_lit("2")]),
    ];
    assert_eq!(parse_field(&mut Reader::new(&enum_trailing)).err(), Some("Unexpected content in enum definition".to_string()));
}

#[test]
fn parse_error_positions() {
    let wrong_kind = vec![ident("reg64"), ident("X"), TokenTree::Delimited(vec![])];
    let mut r = Reader::new(&wrong_kind);
    assert_eq!(parse_reg(&mut r).err(), Some("unexpected identifier reg64".to_string()));
    assert_eq!(r.pos, 0);
    let no_name = vec![ident("reg8"), int_lit("3")];
    let mut r = Reader::new(&no_name);
    assert!(parse_reg(&mut r).is_err());
    assert_eq!(r.pos, 1);
    let bad_body = vec![ident("reg8"), ident("X"), TokenTree::Delimited(vec![ident("junk")]), punct(Punct::Comma)];
    let mut r = Reader::new(&bad_body);
    assert!(parse_reg(&mut r).is_err());
    assert_eq!(r.pos, 3);
    let bad_field = vec![ident("rw"), TokenTree::Delimited(vec![int_lit("x")]), ident("A")];
    let mut r = Reader::new(&bad_field);
    assert!(parse_field(&mut r).is_err());
    assert_eq!(r.pos, 2);
    let fields = vec![int_lit("0"), punct(Punct::FatArrow), ident("q")];
    let mut r = Reader::new(&fields);
    assert!(parse_fields(&mut r).is_err());
    assert_eq!(r.pos, 2);
    let no_body = vec![ident("peripheral"), ident("WDT"), int_lit("1")];
    let mut r = Reader::new(&no_body);
    assert!(parse_peripheral(&mut r).is_err());
    assert_eq!(r.pos, 2);
}

#[test]
fn gen_regs_labels_and_numbers_values() {
    let values = vec![
        EnumeratedValue { name: "8".to_string(), value: "0x0".to_string(), description: Some("8 clock cycles".to_string()) },
        EnumeratedValue { name: "16384".to_string(), value: "0xB".to_string(), description: Some("16384 clock cycles".to_string()) },
        EnumeratedValue { name: "OFF".to_string(), value: "7".to_string(), description: None },
    ];
    let per = Field {
        name: "PER".to_string(),
        bitOffset: 0,
        bitWidth: 4,
        description: None,
        access: None,
        enumeratedValues: Some(EnumeratedValues { enumeratedValue: values }),
    };
    let en = Field { name: "EN".to_string(), bitOffset: 4, bitWidth: 1, description: None, access: None, enumeratedValues: None };
    let reg = Register {
        name: "CONFIG".to_string(),
        addressOffset: 1,
        dim: None,
        dimIncrement: None,
        description: None,
        size: Some(8),
        access: None,
        fields: Some(Fields { field: vec![en, per] }),
    };
    let m = gen_regs(&vec![reg]);
    assert_eq!(m.len(), 1);
    assert_eq!(m.key_at(0), 1);
    let r = m.value_at(0);
    assert_eq!(r.width, 1);
    assert_eq!(r.fields.key_at(0), 0);
    assert_eq!(
        r.fields.value_at(0).enumerate,
        Some(vec![
            ("USE_8_CLOCK_CYCLES".to_string(), 0),
            ("USE_16384_CLOCK_CYCLES".to_string(), 11),
            ("OFF".to_string(), 7)
        ])
    );
    assert_eq!(r.fields.value_at(1).name, "EN");
    assert_eq!(r.fields.value_at(1).enumerate, None);
}

#[test]
fn every_system_symbol_has_a_line() {
    let c = Cluster { name: "I2CM".to_string(), registers: OffsetMap::new() };
    let s = PeripheralAst { name: "SERCOM0".to_string(), address: 0x4200_0800, regs: RegList::Cluster(vec![c]), derives: None };
    let p = PeripheralAst { name: "WDT".to_string(), address: 0x4000_1000, regs: RegList::Registers(OffsetMap::new()), derives: None };
    let sys = generate_system("SAMD21", &vec![p.clone(), s.clone()]);
    let syms = dump_symbols(vec![p, s]);
    assert!(sys.contains("static SAMD21_WDT: WDT::Peripheral;"));
    assert!(syms.contains("\"SAMD21_WDT\" = 0x40001000;\n"));
    assert!(sys.contains("static SAMD21_SERCOM0_I2CM: SERCOM0::I2CM::Cluster;"));
    assert!(syms.contains("\"SAMD21_SERCOM0_I2CM\" = 0x42000800;\n"));
}

#[test]
fn token_messages() {
    assert_eq!(write_token(&ident("A")), "Ident(A)");
    assert_eq!(write_token(&int_lit("0x4")), "Int(0x4)");
    assert_eq!(write_token(&string("s")), "Str(s)");
    assert_eq!(write_token(&punct(Punct::Comma)), "Comma");
    assert_eq!(write_token(&TokenTree::Delimited(vec![])), "Delimited(..)");
    let tokens = vec![punct(Punct::Comma)];
    let mut r = Reader::new(&tokens);
    assert_eq!(r.read_token(Punct::Eq), Err("expecting simple token Eq, got Some(Comma)".to_string()));
    assert_eq!(r.pos, 0);
    assert_eq!(r.read_token(Punct::Comma), Ok(()));
    assert_eq!(r.read_token(Punct::Semi), Err("expecting simple token Semi, got None".to_string()));
    let tokens = vec![TokenTree::Delimited(vec![])];
    let mut r = Reader::new(&tokens);
    assert_eq!(r.read_token(Punct::Eq), Err("expecting simple token Eq, got Some(Delimited(..))".to_string()));
}

#[test]
fn peripheral_module_wraps_register_block() {
    let mut m: OffsetMap<RegisterAst> = OffsetMap::new();
    m.insert(0, reg("A", 4));
    let p = PeripheralAst { name: "P".to_string(), address: 0, regs: RegList::Registers(OffsetMap::new()), derives: None };
    let d = generate_regdefs(&m);
    let code = generate_peripheral_registers(&p, &m);
    let expected = format!(
        "#[allow(non_snake_case)]\n#[allow(unused_imports)]\n#[allow(dead_code)]\npub mod P {{\n    #[allow(non_snake_case)]\n    #[repr(C)]\n    pub struct Peripheral {{\n{}    }}\n\n    impl Peripheral {{\n{}    }}\n\n    pub const INIT: Peripheral = Peripheral {{\n{}    }};\n\n{}}}\n",
        d.reg_structfields, d.reg_impl, d.reg_defaults, d.reg_mod
    );
    assert_eq!(code, expected);
}
