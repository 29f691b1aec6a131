//! The parser of the register description language:
//!
//! ```text
//! peripheral NAME {
//!     OFFSET => reg8|reg16|reg32 NAME {
//!         BIT => rw|r|w[WIDTH] NAME { VALUE_NAME = NUMBER, ... },
//!         ...
//!     }
//!     ...
//! }
//! ```
//!
//! with doc comments allowed before each item.

use vstd::prelude::*;
use crate::token::{TokenTree, Punct};
use crate::reader::{
    Reader, Read, skip_comments, ignore_comments, lemma_skip_comments_ge, spec_has_ident, spec_has_int,
    spec_has_brackets, spec_read_ident, spec_read_ident_match, spec_read_brackets, spec_read_int,
    spec_read_token,
};
use crate::ast::{FieldAst, FieldView, RegisterAst, RegisterView, PeripheralAst, PeripheralView, RegList, RegListView};
use crate::omap::{OffsetMap, spec_insert};

verus! {

/// The named values of an enumeration block, read from `p` on, where `p`
/// is past any doc comments: `NAME = NUMBER` items separated by commas.
pub open spec fn enum_items_at(es: Seq<TokenTree>, p: int) -> Read<Seq<(Seq<char>, usize)>>
    decreases es.len() - p,
{
    if p < 0 || !spec_has_ident(es, p) {
        Ok((Seq::empty(), p))
    } else {
        match spec_read_ident(es, p) {
            Err(m) => Err(m),
            Ok((name, p1)) => match spec_read_token(es, p1, Punct::Eq) {
                Err(m) => Err(m),
                Ok((_, p2)) => match spec_read_int(es, p2).0 {
                    Err(m) => Err(m),
                    Ok((v, p3)) => match spec_read_token(es, p3, Punct::Comma) {
                        Err(_) => Ok((seq![(name, v as usize)], p3)),
                        Ok((_, p4)) => {
                            proof {
                                lemma_skip_comments_ge(es, p4);
                            }
                            match enum_items_at(es, skip_comments(es, p4)) {
                                Err(m) => Err(m),
                                Ok((rest, pe)) => Ok((seq![(name, v as usize)] + rest, pe)),
                            }
                        },
                    },
                },
            },
        }
    }
}

/// The named values of an enumeration block that nothing follows.
pub open spec fn spec_enum_block(es: Seq<TokenTree>) -> Result<Seq<(Seq<char>, usize)>, Seq<char>> {
    match enum_items_at(es, skip_comments(es, 0)) {
        Err(m) => Err(m),
        Ok((items, pe)) => if pe < es.len() {
            Err("Unexpected content in enum definition"@)
        } else {
            Ok(items)
        },
    }
}

/// The access words of a field.
pub open spec fn access_words() -> Seq<Seq<char>> {
    seq!["rw"@, "r"@, "w"@]
}

/// A field: `ACCESS[WIDTH] NAME`, then optionally an enumeration block.
pub open spec fn spec_parse_field(ts: Seq<TokenTree>, p: int) -> Read<FieldView> {
    match spec_read_ident_match(ts, p, access_words()) {
        Err(m) => Err(m),
        Ok((_, p1)) => match spec_read_brackets(ts, p1) {
            Err(m) => Err(m),
            Ok((inner, p2)) => match spec_read_int(inner, 0).0 {
                Err(m) => Err(m),
                Ok((sub, _)) => match spec_read_ident(ts, p2) {
                    Err(m) => Err(m),
                    Ok((name, p3)) => if spec_has_brackets(ts, p3) {
                        match spec_read_brackets(ts, p3) {
                            Err(m) => Err(m),
                            Ok((braces, p4)) => match spec_enum_block(braces) {
                                Err(m) => Err(m),
                                Ok(items) => Ok((FieldView { name, width: sub as usize, enumerate: Some(items) }, p4)),
                            },
                        }
                    } else {
                        Ok((FieldView { name, width: sub as usize, enumerate: None }, p3))
                    },
                },
            },
        },
    }
}

/// The fields of a register block, read from `p` on, where `p` is past any
/// doc comments, stored on the table `acc`: `BIT => FIELD` items separated
/// by commas.
pub open spec fn fields_at(ts: Seq<TokenTree>, p: int, acc: Seq<(usize, FieldView)>) -> Read<Seq<(usize, FieldView)>>
    decreases ts.len() - p,
{
    if p < 0 || !spec_has_int(ts, p) {
        Ok((acc, p))
    } else {
        match spec_read_int(ts, p).0 {
            Err(m) => Err(m),
            Ok((pos, p1)) => match spec_read_token(ts, p1, Punct::FatArrow) {
                Err(m) => Err(m),
                Ok((_, p2)) => match spec_parse_field(ts, p2) {
                    Err(m) => Err(m),
                    Ok((f, p3)) => {
                        let acc2 = spec_insert(acc, pos as usize, f);
                        match spec_read_token(ts, p3, Punct::Comma) {
                            Err(_) => Ok((acc2, p3)),
                            Ok((_, p4)) => {
                                proof {
                                    lemma_skip_comments_ge(ts, p4);
                                }
                                if p4 > p {
                                    fields_at(ts, skip_comments(ts, p4), acc2)
                                } else {
                                    Ok((acc2, p4))
                                }
                            },
                        }
                    },
                },
            },
        }
    }
}

/// The field table of a register block, read from `p` on.
pub open spec fn spec_parse_fields(ts: Seq<TokenTree>, p: int) -> Read<Seq<(usize, FieldView)>> {
    fields_at(ts, skip_comments(ts, p), Seq::empty())
}

/// The register kinds and their widths in bytes.
pub open spec fn reg_words() -> Seq<Seq<char>> {
    seq!["reg8"@, "reg16"@, "reg32"@]
}

/// The width in bytes of a register kind.
pub open spec fn reg_width(kind: Seq<char>) -> usize {
    if kind == "reg16"@ {
        2
    } else if kind == "reg32"@ {
        4
    } else {
        1
    }
}

/// A register: `KIND NAME { FIELDS }`.
pub open spec fn spec_parse_reg(ts: Seq<TokenTree>, p: int) -> Read<RegisterView> {
    match spec_read_ident_match(ts, p, reg_words()) {
        Err(m) => Err(m),
        Ok((kind, p1)) => match spec_read_ident(ts, p1) {
            Err(m) => Err(m),
            Ok((name, p2)) => match spec_read_brackets(ts, p2) {
                Err(m) => Err(m),
                Ok((inner, p3)) => match spec_parse_fields(inner, 0) {
                    Err(m) => Err(m),
                    Ok((fields, pe)) => if pe < inner.len() {
                        Err("Unexpected content in register definition"@)
                    } else {
                        Ok((RegisterView { name, fields, width: reg_width(kind), dim: None }, p3))
                    },
                },
            },
        },
    }
}

/// The registers of a peripheral block, read from `p` on, where `p` is past
/// any doc comments, stored on the table `acc`: `OFFSET => REGISTER` items
/// with optional commas.
pub open spec fn regs_at(ts: Seq<TokenTree>, p: int, acc: Seq<(usize, RegisterView)>) -> Read<Seq<(usize, RegisterView)>>
    decreases ts.len() - p,
{
    if p < 0 || !spec_has_int(ts, p) {
        Ok((acc, p))
    } else {
        match spec_read_int(ts, p).0 {
            Err(m) => Err(m),
            Ok((pos, p1)) => match spec_read_token(ts, p1, Punct::FatArrow) {
                Err(m) => Err(m),
                Ok((_, p2)) => match spec_parse_reg(ts, p2) {
                    Err(m) => Err(m),
                    Ok((r, p3)) => {
                        let acc2 = spec_insert(acc, pos as usize, r);
                        let p4 = match spec_read_token(ts, p3, Punct::Comma) {
                            Ok((_, q)) => q,
                            Err(_) => p3,
                        };
                        proof {
                            lemma_skip_comments_ge(ts, p4);
                        }
                        if p4 > p {
                            regs_at(ts, skip_comments(ts, p4), acc2)
                        } else {
                            Ok((acc2, p4))
                        }
                    },
                },
            },
        }
    }
}

/// The peripheral words.
pub open spec fn peripheral_words() -> Seq<Seq<char>> {
    seq!["peripheral"@]
}

/// A peripheral named `name` whose block `inner` ends at `p3`.
pub open spec fn peripheral_block(name: Seq<char>, inner: Seq<TokenTree>, p3: int) -> Read<PeripheralView> {
    match regs_at(inner, skip_comments(inner, 0), Seq::empty()) {
        Err(m) => Err(m),
        Ok((regs, pe)) => if pe < inner.len() {
            Err("Unexpected content at end of peripheral definition"@)
        } else {
            Ok((PeripheralView { name, address: 0, regs: RegListView::Registers(regs), derives: None }, p3))
        },
    }
}

/// A peripheral: `peripheral NAME { REGISTERS }`, after any doc comments.
pub open spec fn spec_parse_peripheral(ts: Seq<TokenTree>, p0: int) -> Read<PeripheralView> {
    let p = skip_comments(ts, p0);
    match spec_read_ident_match(ts, p, peripheral_words()) {
        Err(m) => Err(m),
        Ok((_, p1)) => match spec_read_ident(ts, p1) {
            Err(m) => Err(m),
            Ok((name, p2)) => match spec_read_brackets(ts, p2) {
                Err(m) => Err(m),
                Ok((inner, p3)) => peripheral_block(name, inner, p3),
            },
        },
    }
}

/// Where the reader stands after reading a field from `p` (see
/// `spec_parse_field`): past the last token that the read took, also where
/// the read fails.
pub open spec fn field_stop(ts: Seq<TokenTree>, p: int) -> int {
    match spec_read_ident_match(ts, p, access_words()) {
        Err(_) => p,
        Ok((_, p1)) => match spec_read_brackets(ts, p1) {
            Err(_) => p1,
            Ok((inner, p2)) => match spec_read_int(inner, 0).0 {
                Err(_) => p2,
                Ok(_) => match spec_read_ident(ts, p2) {
                    Err(_) => p2,
                    Ok((_, p3)) => if spec_has_brackets(ts, p3) { p3 + 1 } else { p3 },
                },
            },
        },
    }
}

/// Where the reader stands after reading the fields of a register block
/// from `p` on (see `fields_at`), also where the read fails.
pub open spec fn fields_stop(ts: Seq<TokenTree>, p: int) -> int
    decreases ts.len() - p,
{
    if p < 0 || !spec_has_int(ts, p) {
        p
    } else {
        match spec_read_int(ts, p) {
            (Err(_), q) => q,
            (Ok((_, p1)), _) => match spec_read_token(ts, p1, Punct::FatArrow) {
                Err(_) => p1,
                Ok((_, p2)) => match spec_parse_field(ts, p2) {
                    Err(_) => field_stop(ts, p2),
                    Ok((_, p3)) => match spec_read_token(ts, p3, Punct::Comma) {
                        Err(_) => p3,
                        Ok((_, p4)) => {
                            proof {
                                lemma_skip_comments_ge(ts, p4);
                            }
                            if p4 > p {
                                fields_stop(ts, skip_comments(ts, p4))
                            } else {
                                p4
                            }
                        },
                    },
                },
            },
        }
    }
}

/// Where the reader stands after reading a register from `p` (see
/// `spec_parse_reg`): where it started when the kind is not a register
/// kind, past the name or the block as far as they were read.
pub open spec fn reg_stop(ts: Seq<TokenTree>, p: int) -> int {
    match spec_read_ident_match(ts, p, reg_words()) {
        Err(_) => p,
        Ok((_, p1)) => match spec_read_ident(ts, p1) {
            Err(_) => p1,
            Ok((_, p2)) => match spec_read_brackets(ts, p2) {
                Err(_) => p2,
                Ok((_, p3)) => p3,
            },
        },
    }
}

/// Where the reader stands after reading a peripheral from `p0` (see
/// `spec_parse_peripheral`): past its doc comments, then past the word,
/// the name and the block as far as they were read.
pub open spec fn peripheral_stop(ts: Seq<TokenTree>, p0: int) -> int {
    let p = skip_comments(ts, p0);
    match spec_read_ident_match(ts, p, peripheral_words()) {
        Err(_) => p,
        Ok((_, p1)) => match spec_read_ident(ts, p1) {
            Err(_) => p1,
            Ok((_, p2)) => match spec_read_brackets(ts, p2) {
                Err(_) => p2,
                Ok((_, p3)) => p3,
            },
        },
    }
}

/// Whether the result of a parse matches its spec: the value and position
/// on success, the message on failure.
pub open spec fn parsed<T: View>(r: Result<T, String>, end: int, s: Read<T::V>) -> bool {
    match s {
        Ok((v, p)) => r matches Ok(x) && x@ == v && end == p,
        Err(m) => r matches Err(e) && e@ == m,
    }
}


/// The model of a list of named values.
pub open spec fn items_view(v: Seq<(String, usize)>) -> Seq<(Seq<char>, usize)> {
    v.map_values(|p: (String, usize)| (p.0@, p.1))
}

/// A read result with `acc` put before its items.
pub open spec fn prepend_items(acc: Seq<(Seq<char>, usize)>, r: Read<Seq<(Seq<char>, usize)>>) -> Read<Seq<(Seq<char>, usize)>> {
    match r {
        Ok((rest, pe)) => Ok((acc + rest, pe)),
        Err(m) => Err(m),
    }
}

/// Reads an enumeration block that fills the whole of `braces`.
pub fn parse_enum_block(braces: &[TokenTree]) -> (r: Result<Vec<(String, usize)>, String>)
    ensures
        match spec_enum_block(braces@) {
            Ok(items) => r matches Ok(v) && items_view(v@) == items,
            Err(m) => r matches Err(e) && e@ == m,
        },
{
    let ghost es = braces@;
    let mut enumset = Reader::new(braces);
    ignore_comments(&mut enumset);
    let ghost start = enumset.pos as int;
    let mut enumvec: Vec<(String, usize)> = Vec::new();
    proof {
        lemma_skip_comments_ge(es, 0);
        assert(items_view(enumvec@) + Seq::<(Seq<char>, usize)>::empty() =~= Seq::<(Seq<char>, usize)>::empty());
        assert(items_view(enumvec@) =~= Seq::<(Seq<char>, usize)>::empty());
        match enum_items_at(es, start) {
            Ok((rest, pe)) => assert(Seq::<(Seq<char>, usize)>::empty() + rest =~= rest),
            Err(_) => {},
        }
    }
    loop
        invariant_except_break
            es == braces@,
            enumset.tokens@ == es,
            0 <= enumset.pos <= es.len(),
            start == skip_comments(es, 0),
            enum_items_at(es, start) == prepend_items(items_view(enumvec@), enum_items_at(es, enumset.pos as int)),
        ensures
            es == braces@,
            enumset.tokens@ == es,
            0 <= enumset.pos <= es.len(),
            start == skip_comments(es, 0),
            enum_items_at(es, start) == Ok::<(Seq<(Seq<char>, usize)>, int), Seq<char>>((items_view(enumvec@), enumset.pos as int)),
        decreases es.len() - enumset.pos,
    {
        let ghost p = enumset.pos as int;
        let ghost acc = items_view(enumvec@);
        if !enumset.has_ident() {
            assert(acc + Seq::<(Seq<char>, usize)>::empty() =~= acc);
            break;
        }
        let name = match enumset.read_ident() {
            Ok(n) => n,
            Err(e) => {
                return Err(e);
            },
        };
        match enumset.read_token(Punct::Eq) {
            Ok(_) => {},
            Err(e) => {
                return Err(e);
            },
        }
        let value = match enumset.read_int() {
            Ok(v) => v as usize,
            Err(e) => {
                return Err(e);
            },
        };
        let ghost item = (name@, value);
        enumvec.push((name, value));
        proof {
            assert(items_view(enumvec@) =~= acc.push(item));
        }
        match enumset.read_token(Punct::Comma) {
            Ok(_) => {},
            Err(_) => {
                assert(acc + seq![item] =~= items_view(enumvec@));
                break;
            },
        }
        let ghost p4 = enumset.pos as int;
        ignore_comments(&mut enumset);
        proof {
            lemma_skip_comments_ge(es, p4);
            match enum_items_at(es, enumset.pos as int) {
                Ok((rest, pe)) => {
                    assert(acc + (seq![item] + rest) =~= items_view(enumvec@) + rest);
                },
                Err(_) => {},
            }
        }
    }
    if !enumset.is_done() {
        proof {
            reveal_strlit("Unexpected content in enum definition");
        }
        return Err(String::from_str("Unexpected content in enum definition"));
    }
    Ok(enumvec)
}


/// Reads a field (see `spec_parse_field`).
pub fn parse_field(reader: &mut Reader) -> (r: Result<FieldAst, String>)
    requires
        old(reader).pos <= old(reader).tokens@.len(),
    ensures
        final(reader).tokens == old(reader).tokens,
        final(reader).pos <= final(reader).tokens@.len(),
        parsed(r, final(reader).pos as int, spec_parse_field(old(reader).tokens@, old(reader).pos as int)),
        final(reader).pos == field_stop(old(reader).tokens@, old(reader).pos as int),
{
    let words: [&str; 3] = ["rw", "r", "w"];
    proof {
        assert(words@.map_values(|s: &str| s@) =~= access_words());
    }
    let _access = match reader.read_ident_match(&words) {
        Ok(a) => a,
        Err(e) => {
            return Err(e);
        },
    };
    let delimiter = match reader.read_brackets() {
        Ok(d) => d,
        Err(e) => {
            return Err(e);
        },
    };
    let mut sub = Reader::new(delimiter);
    let subscript = match sub.read_int() {
        Ok(v) => v,
        Err(e) => {
            return Err(e);
        },
    };
    let name = match reader.read_ident() {
        Ok(n) => n,
        Err(e) => {
            return Err(e);
        },
    };
    let mut enumerate: Option<Vec<(String, usize)>> = None;
    if reader.has_brackets() {
        let braces = match reader.read_brackets() {
            Ok(b) => b,
            Err(e) => {
                return Err(e);
            },
        };
        match parse_enum_block(braces) {
            Ok(v) => {
                enumerate = Some(v);
            },
            Err(e) => {
                return Err(e);
            },
        }
        proof {
            assert(crate::ast::enum_view(enumerate) =~= Some(items_view(enumerate.unwrap()@)));
        }
    }
    Ok(FieldAst { name, width: subscript as usize, enumerate })
}


/// Reads the field table of a register block (see `spec_parse_fields`).
pub fn parse_fields(reader: &mut Reader) -> (r: Result<OffsetMap<FieldAst>, String>)
    requires
        old(reader).pos <= old(reader).tokens@.len(),
    ensures
        final(reader).tokens == old(reader).tokens,
        final(reader).pos <= final(reader).tokens@.len(),
        parsed(r, final(reader).pos as int, spec_parse_fields(old(reader).tokens@, old(reader).pos as int)),
        final(reader).pos == fields_stop(old(reader).tokens@, skip_comments(old(reader).tokens@, old(reader).pos as int)),
        r matches Ok(m) ==> m.wf(),
{
    let ghost ts = reader.tokens@;
    let mut out: OffsetMap<FieldAst> = OffsetMap::new();
    proof {
        lemma_skip_comments_ge(ts, reader.pos as int);
    }
    ignore_comments(reader);
    let ghost start = reader.pos as int;
    loop
        invariant_except_break
            reader.tokens@ == ts,
            ts == old(reader).tokens@,
            reader.tokens == old(reader).tokens,
            0 <= reader.pos <= ts.len(),
            out.wf(),
            spec_parse_fields(ts, old(reader).pos as int) == fields_at(ts, reader.pos as int, out@),
            fields_stop(ts, skip_comments(ts, old(reader).pos as int)) == fields_stop(ts, reader.pos as int),
        ensures
            reader.tokens == old(reader).tokens,
            0 <= reader.pos <= ts.len(),
            out.wf(),
            fields_stop(ts, skip_comments(ts, old(reader).pos as int)) == reader.pos,
            spec_parse_fields(ts, old(reader).pos as int) == Ok::<(Seq<(usize, FieldView)>, int), Seq<char>>((out@, reader.pos as int)),
        decreases ts.len() - reader.pos,
    {
        let ghost p = reader.pos as int;
        if !reader.has_int() {
            break;
        }
        let pos = match reader.read_int() {
            Ok(v) => v as usize,
            Err(e) => {
                return Err(e);
            },
        };
        match reader.read_token(Punct::FatArrow) {
            Ok(_) => {},
            Err(e) => {
                return Err(e);
            },
        }
        let field = match parse_field(reader) {
            Ok(f) => f,
            Err(e) => {
                return Err(e);
            },
        };
        out.insert(pos, field);
        match reader.read_token(Punct::Comma) {
            Ok(_) => {},
            Err(_) => {
                break;
            },
        }
        let ghost p4 = reader.pos as int;
        ignore_comments(reader);
        proof {
            lemma_skip_comments_ge(ts, p4);
        }
    }
    Ok(out)
}

/// Reads a register (see `spec_parse_reg`).
pub fn parse_reg(reader: &mut Reader) -> (r: Result<RegisterAst, String>)
    requires
        old(reader).pos <= old(reader).tokens@.len(),
    ensures
        final(reader).tokens == old(reader).tokens,
        final(reader).pos <= final(reader).tokens@.len(),
        parsed(r, final(reader).pos as int, spec_parse_reg(old(reader).tokens@, old(reader).pos as int)),
        final(reader).pos == reg_stop(old(reader).tokens@, old(reader).pos as int),
        r matches Ok(reg) ==> reg.fields.wf(),
{
    let words: [&str; 3] = ["reg8", "reg16", "reg32"];
    proof {
        assert(words@.map_values(|s: &str| s@) =~= reg_words());
    }
    let regmap = match reader.read_ident_match(&words) {
        Ok(k) => k,
        Err(e) => {
            return Err(e);
        },
    };
    let name = match reader.read_ident() {
        Ok(n) => n,
        Err(e) => {
            return Err(e);
        },
    };
    let inner = match reader.read_brackets() {
        Ok(d) => d,
        Err(e) => {
            return Err(e);
        },
    };
    let mut sub = Reader::new(inner);
    let fields = match parse_fields(&mut sub) {
        Ok(f) => f,
        Err(e) => {
            return Err(e);
        },
    };
    if !sub.is_done() {
        proof {
            reveal_strlit("Unexpected content in register definition");
        }
        return Err(String::from_str("Unexpected content in register definition"));
    }
    let width: usize = if crate::text::str_eq(regmap.as_str(), "reg16") {
        2
    } else if crate::text::str_eq(regmap.as_str(), "reg32") {
        4
    } else {
        1
    };
    Ok(RegisterAst { name, fields, width, dim: None })
}

/// Reads a peripheral (see `spec_parse_peripheral`).
pub fn parse_peripheral(reader: &mut Reader) -> (r: Result<PeripheralAst, String>)
    requires
        old(reader).pos <= old(reader).tokens@.len(),
    ensures
        final(reader).tokens == old(reader).tokens,
        final(reader).pos <= final(reader).tokens@.len(),
        parsed(r, final(reader).pos as int, spec_parse_peripheral(old(reader).tokens@, old(reader).pos as int)),
        final(reader).pos == peripheral_stop(old(reader).tokens@, old(reader).pos as int),
{
    proof {
        lemma_skip_comments_ge(reader.tokens@, reader.pos as int);
    }
    ignore_comments(reader);
    let words: [&str; 1] = ["peripheral"];
    proof {
        assert(words@.map_values(|s: &str| s@) =~= peripheral_words());
    }
    match reader.read_ident_match(&words) {
        Ok(_) => {},
        Err(e) => {
            return Err(e);
        },
    }
    let name = match reader.read_ident() {
        Ok(n) => n,
        Err(e) => {
            return Err(e);
        },
    };
    let delimiter = match reader.read_brackets() {
        Ok(d) => d,
        Err(e) => {
            return Err(e);
        },
    };
    let mut sub = Reader::new(delimiter);
    let ghost ts = sub.tokens@;
    let ghost after = reader.pos;
    let mut regs: OffsetMap<RegisterAst> = OffsetMap::new();
    proof {
        lemma_skip_comments_ge(ts, 0);
    }
    ignore_comments(&mut sub);
    loop
        invariant_except_break
            sub.tokens@ == ts,
            ts == delimiter@,
            0 <= sub.pos <= ts.len(),
            reader.tokens == old(reader).tokens,
            reader.pos == after,
            after <= reader.tokens@.len(),
            after == peripheral_stop(old(reader).tokens@, old(reader).pos as int),
            spec_parse_peripheral(old(reader).tokens@, old(reader).pos as int) == peripheral_block(name@, ts, after as int),
            regs.wf(),
            regs_at(ts, skip_comments(ts, 0), Seq::empty()) == regs_at(ts, sub.pos as int, regs@),
        ensures
            sub.tokens@ == ts,
            ts == delimiter@,
            0 <= sub.pos <= ts.len(),
            reader.tokens == old(reader).tokens,
            reader.pos == after,
            regs_at(ts, skip_comments(ts, 0), Seq::empty()) == Ok::<(Seq<(usize, RegisterView)>, int), Seq<char>>((regs@, sub.pos as int)),
        decreases ts.len() - sub.pos,
    {
        if !sub.has_int() {
            break;
        }
        let pos = match sub.read_int() {
            Ok(v) => v as usize,
            Err(e) => {
                return Err(e);
            },
        };
        match sub.read_token(Punct::FatArrow) {
            Ok(_) => {},
            Err(e) => {
                return Err(e);
            },
        }
        let reg = match parse_reg(&mut sub) {
            Ok(r) => r,
            Err(e) => {
                return Err(e);
            },
        };
        regs.insert(pos, reg);
        let _ = sub.read_token(Punct::Comma);
        let ghost p4 = sub.pos as int;
        ignore_comments(&mut sub);
        proof {
            lemma_skip_comments_ge(ts, p4);
        }
    }
    if !sub.is_done() {
        proof {
            reveal_strlit("Unexpected content at end of peripheral definition");
        }
        return Err(String::from_str("Unexpected content at end of peripheral definition"));
    }
    Ok(PeripheralAst { name, address: 0, regs: RegList::Registers(regs), derives: None })
}

} // verus!
