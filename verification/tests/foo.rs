use svd::foo::ast::{FieldAst, PeripheralAst, RegisterAst};
use svd::foo::driver::{generate_peripherals, to_foo_peripheral};
use svd::foo::generator::{generate_peripheral, generate_system, layout_foo_registers};
use svd::reader::Reader;
use svd::token::{Punct, Token, TokenTree};
use svd::foo::regs::RegField;
use svd::foo::util::{or_tuples, shift_tuple};
use svd::layout::StructMatch;
use svd::omap::OffsetMap;

#[test]
fn single_bit_masks() {
    let f = RegField { width: 3 };
    assert_eq!(f.set(), (0, 0b111));
    assert_eq!(f.clear(), (0b111, 0));
    assert_eq!(f.value(0b1000), (0, 0b1000));
    assert_eq!(f.value(0b0111), (0, 0));
    assert_eq!(f.update(0b1_1000), (0b111, 0b1000));
    let z = RegField { width: 0 };
    assert_eq!(z.set(), (0, 0));
    assert_eq!(z.value(1), (0, 1));
}

#[test]
fn tuples() {
    assert_eq!(or_tuples((1, 2), (4, 8)), (5, 10));
    assert_eq!(shift_tuple(3, (1, 2)), (8, 16));
}

fn peripheral() -> PeripheralAst {
    let mut fields: OffsetMap<FieldAst> = OffsetMap::new();
    fields.insert(0, FieldAst { name: "EN".to_string(), width: 1, enumerate: None });
    fields.insert(1, FieldAst { name: "MODE".to_string(), width: 2, enumerate: Some(vec![("SLOW".to_string(), 1)]) });
    let mut regs: OffsetMap<RegisterAst> = OffsetMap::new();
    regs.insert(2, RegisterAst { name: "CTRL".to_string(), fields, width: 2 });
    PeripheralAst { name: "TC".to_string(), regs }
}

#[test]
fn foo_layout() {
    let p = peripheral();
    let slots = layout_foo_registers(&p.regs);
    assert_eq!(slots.len(), 2);
    assert!(matches!(slots[0], StructMatch::Space(2)));
    assert!(matches!(slots[1], StructMatch::Reg(0)));
}

#[test]
fn foo_peripheral_code() {
    let code = generate_peripheral(&peripheral());
    assert!(code.starts_with("#[allow(non_snake_case)]\npub mod TC {\n"));
    assert!(code.contains("reserved_0: [u8; 2],\n"));
    assert!(code.contains("pub CTRL: CTRL::Reg,\n"));
    assert!(code.contains("const EN: ::bar::regs::RegField = ::bar::regs::RegField { width: 1 };\n"));
    assert!(code.contains("pub fn EN(&mut self) -> &mut Set {\n    self.apply(0, EN.set());\n    self\n}\n"));
    assert!(code.contains("pub fn EN(&mut self, value: usize) -> &mut Update {\n    self.apply(0, EN.update_value(value));\n    self\n}\n"));
    assert!(code.contains("pub fn MODE(&mut self, choice: MODE) -> &mut Set {\n    self.apply(1, MODE.set_value(choice as usize));\n    self\n}\n"));
    assert!(code.contains("SLOW = 1,\n"));
    assert!(code.contains("pub field: UnsafeCell<u16>,"));
    assert!(code.contains("::bar::util::or_tuples"));
}

#[test]
fn foo_system_code() {
    let sys = generate_system("SYS".to_string(), &vec![peripheral()]);
    assert!(sys.contains("static SYS_TC: TC::Peripheral;\n"));
    assert!(sys.contains("pub TC: &'static TC::Peripheral,\n"));
    assert!(sys.contains("TC: &SYS_TC,\n"));
    assert!(sys.contains("pub static SYS: System = System {\n"));
}

fn ident(s: &str) -> TokenTree {
    TokenTree::Token(Token::Ident(s.to_string()))
}

fn number(s: &str) -> TokenTree {
    TokenTree::Token(Token::Int(s.to_string()))
}

fn punct(p: Punct) -> TokenTree {
    TokenTree::Token(Token::Punct(p))
}

fn tc_tokens() -> Vec<TokenTree> {
    let fields = vec![
        number("0"),
        punct(Punct::FatArrow),
        ident("rw"),
        TokenTree::Delimited(vec![number("1")]),
        ident("EN"),
        punct(Punct::Comma),
        number("1"),
        punct(Punct::FatArrow),
        ident("rw"),
        TokenTree::Delimited(vec![number("2")]),
        ident("MODE"),
        TokenTree::Delimited(vec![ident("SLOW"), punct(Punct::Eq), number("1")]),
    ];
    vec![
        ident("peripheral"),
        ident("TC"),
        TokenTree::Delimited(vec![number("2"), punct(Punct::FatArrow), ident("reg16"), ident("CTRL"), TokenTree::Delimited(fields)]),
    ]
}

#[test]
fn macro_with_systems() {
    let mut tokens = vec![ident("system"), ident("SYS"), punct(Punct::Semi)];
    tokens.extend(tc_tokens());
    let (reported, code) = generate_peripherals(&mut Reader::new(&tokens));
    assert!(reported.is_empty());
    let expected = generate_peripheral(&peripheral()) + &generate_system("SYS".to_string(), &vec![peripheral()]);
    assert_eq!(code, Ok(expected));
}

#[test]
fn macro_parse_to_first_generation() {
    let tokens = tc_tokens();
    let p = svd::parser::parse_peripheral(&mut Reader::new(&tokens)).unwrap();
    let f = to_foo_peripheral(&p);
    assert_eq!(f.name, "TC");
    assert_eq!(f.regs.len(), 1);
    assert_eq!(f.regs.key_at(0), 2);
    assert_eq!(f.regs.value_at(0).width, 2);
    assert_eq!(f.regs.value_at(0).fields.value_at(1).name, "MODE");
    assert_eq!(generate_peripheral(&f), generate_peripheral(&peripheral()));
}

#[test]
fn macro_errors() {
    let tokens = vec![ident("system"), punct(Punct::Semi)];
    assert_eq!(generate_peripherals(&mut Reader::new(&tokens)), (vec![], Err("expecting identifier".to_string())));
    let tokens = vec![ident("system"), ident("SYS")];
    assert_eq!(generate_peripherals(&mut Reader::new(&tokens)), (vec![], Err("expecting simple token Semi, got None".to_string())));
    let empty: Vec<TokenTree> = vec![];
    assert_eq!(generate_peripherals(&mut Reader::new(&empty)), (vec![], Ok(String::new())));
}

#[test]
fn macro_reports_and_goes_on() {
    // A peripheral that cannot be read is reported; tokens remain after it.
    let tokens = vec![number("1")];
    assert_eq!(
        generate_peripherals(&mut Reader::new(&tokens)),
        (vec!["expecting identifier".to_string()], Err("unexpected content at end of macro".to_string()))
    );
    // A failed read that reaches the end: reported, and the code of the
    // peripherals read before it comes back.
    let mut tokens = tc_tokens();
    tokens.push(TokenTree::Token(Token::DocComment("trailing".to_string())));
    let (reported, code) = generate_peripherals(&mut Reader::new(&tokens));
    assert_eq!(reported, vec!["expecting identifier".to_string()]);
    assert_eq!(code, Ok(generate_peripheral(&peripheral())));
    // A broken second peripheral: the first is read, the second reported.
    let mut tokens = vec![ident("system"), ident("S"), punct(Punct::Semi)];
    tokens.extend(tc_tokens());
    tokens.extend(vec![ident("peripheral"), ident("X"), ident("Y")]);
    let (reported, code) = generate_peripherals(&mut Reader::new(&tokens));
    assert_eq!(reported, vec!["expecting brackets".to_string()]);
    assert_eq!(code, Err("unexpected content at end of macro".to_string()));
}
